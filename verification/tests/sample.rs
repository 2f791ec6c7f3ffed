use pgbind::binder::{bind, BindError, Field, RawColumn, Record, Row};
use pgbind::codec::Codec;
use pgbind::descriptor::TypeDescriptor;
use pgbind::error::{EncodeError, EncodeErrorKind};
use pgbind::executor::{
    complete, fetch_one, prepare, Argument, ExecuteError, Reply,
};
use pgbind::sample::{
    insert_citext_col, insert_citext_col_with_non_string, insert_citext_null_col, insert_in_tx1,
    insert_in_tx2, insert_mytext_col, insert_mytext_null_col, insert_text_col,
    insert_text_null_col, my_enum, my_enum_array_shape, my_enums_type, sample_registry,
    select_myenum_array, table1_shape, FieldError, FieldErrorKind, MyEnum, MyEnumArray, MyText,
    Table1,
};
use pgbind::script::Step;
use pgbind::transaction::{TransactionScope, TxState};
use pgbind::value::{DomainText, EnumTag, ScalarValue, Value};

const MY_ENUM_OID: u32 = 16390;
const MYTEXT_OID: u32 = 16400;
const CITEXT_OID: u32 = 16410;

const RETURNING: &str = " RETURNING table1_id, text, text_null, citext, citext_null, mytext, \
                         mytext_null, myenum, myenum_null";

fn registry() -> pgbind::registry::Registry {
    sample_registry(MY_ENUM_OID, MYTEXT_OID, CITEXT_OID)
}

fn raw(name: &str, value: Option<&[u8]>) -> RawColumn {
    RawColumn { name: name.to_string(), value: value.map(|b| b.to_vec()) }
}

fn returned_row(text: Option<&[u8]>, text_null: Option<&[u8]>) -> Row {
    Row {
        columns: vec![
            raw("table1_id", Some(&[7; 16])),
            raw("text", text),
            raw("text_null", text_null),
            raw("citext", Some(b"Default")),
            raw("citext_null", None),
            raw("mytext", Some(b"default")),
            raw("mytext_null", None),
            raw("myenum", Some(b"state1")),
            raw("myenum_null", None),
        ],
    }
}

fn enum_array(elements: &[Option<&[u8]>]) -> Vec<u8> {
    let mut out = Vec::new();
    for word in [1u32, 0, MY_ENUM_OID, elements.len() as u32, 1] {
        out.extend_from_slice(&word.to_be_bytes());
    }
    for e in elements {
        match e {
            None => out.extend_from_slice(&[0xFF; 4]),
            Some(b) => {
                out.extend_from_slice(&(b.len() as u32).to_be_bytes());
                out.extend_from_slice(b);
            }
        }
    }
    out
}

#[test]
fn my_enum_labels_are_snake_case() {
    assert_eq!(MyEnum::State1.label(), "state1");
    assert_eq!(MyEnum::State2.label(), "state2");
    assert_eq!(MyEnum::State3.label(), "state3");
    for e in [MyEnum::State1, MyEnum::State2, MyEnum::State3] {
        assert_eq!(MyEnum::from_label(&e.label()), Some(e));
        assert!(my_enum(1).has_member(&e.label()));
        assert_eq!(
            e.to_value(),
            ScalarValue::Enum(EnumTag { enum_name: "my_enum".to_string(), member: e.label() })
        );
    }
    assert_eq!(MyEnum::from_label(&"State1".to_string()), None);
    assert_eq!(MyEnum::from_label(&"state4".to_string()), None);
    assert_eq!(MyEnum::from_label(&String::new()), None);
}

#[test]
fn my_enum_descriptor_lists_the_three_members() {
    let d = my_enum(MY_ENUM_OID);
    assert_eq!(d.name(), "my_enum");
    assert_eq!(d.oid(), MY_ENUM_OID);
    assert_eq!(d.members(), &vec!["state1".to_string(), "state2".to_string(), "state3".to_string()]);
}

#[test]
fn sample_registry_knows_the_user_defined_types() {
    let registry = registry();
    for name in ["text", "bool", "int8", "float8", "uuid", "my_enum", "mytext", "citext"] {
        assert!(registry.contains(name), "{}", name);
    }
    assert!(!registry.contains("_my_enum"));
    let descriptor = TypeDescriptor::Enum(my_enum(MY_ENUM_OID));
    assert_eq!(registry.lookup("my_enum"), Ok(Codec::Scalar(&descriptor)));
    assert_eq!(my_enums_type(), "_my_enum");
    assert_eq!(registry.resolve(&my_enums_type()), Ok(Codec::Array(&descriptor)));
    assert_eq!(registry.lookup("citext").unwrap().encode(&Value::Scalar(ScalarValue::Null)), Ok(None));
    match registry.lookup("mytext").unwrap() {
        Codec::Scalar(TypeDescriptor::Domain(d)) => {
            assert_eq!(d.name, "mytext");
            assert_eq!(d.oid, MYTEXT_OID);
        }
        other => panic!("unexpected codec {:?}", other),
    }
    match registry.lookup("citext").unwrap() {
        Codec::Scalar(TypeDescriptor::Domain(d)) => assert_eq!(d.oid, CITEXT_OID),
        other => panic!("unexpected codec {:?}", other),
    }
}

#[test]
fn insert_statements_have_the_expected_text_and_parameters() {
    let registry = registry();
    let cases = vec![
        (insert_text_col(), "text", "$1", "text", "insert_text_col"),
        (insert_text_null_col(), "text_null", "$1", "text", "insert_text_null_col"),
        (insert_citext_col(), "citext", "$1", "citext", "insert_citext"),
        (
            insert_citext_null_col(),
            "citext_null",
            "$1::TEXT::citext",
            "text",
            "insert_citext_null_col",
        ),
        (insert_mytext_col(), "mytext", "$1::TEXT::mytext", "text", "insert_mytext_col"),
        (
            insert_mytext_null_col(),
            "mytext_null",
            "$1::TEXT::mytext",
            "text",
            "insert_mytext_null_col",
        ),
    ];
    for (statement, column, values, target, value) in cases {
        let text = format!("INSERT INTO table1 ({}) VALUES ({}){}", column, values, RETURNING);
        assert_eq!(statement.text, text);
        assert_eq!(statement.returning, Some(table1_shape()));
        let request = prepare(&registry, &statement).unwrap();
        assert_eq!(request.text, text);
        assert_eq!(
            request.arguments,
            vec![Argument { target: target.to_string(), wire: Some(value.as_bytes().to_vec()) }]
        );
    }
}

#[test]
fn insert_with_non_string_parameters_is_refused_before_it_is_sent() {
    let statement = insert_citext_col_with_non_string();
    assert_eq!(
        statement.text,
        format!("INSERT INTO table1 (citext, citext_null) VALUES ($1, $2){}", RETURNING)
    );
    assert_eq!(statement.parameters.len(), 2);
    assert_eq!(statement.parameters[0].value, Value::Scalar(ScalarValue::Integer(42)));
    assert_eq!(
        statement.parameters[1].value,
        Value::Array(vec![
            ScalarValue::Text("hello".to_string()),
            ScalarValue::Text("world".to_string()),
        ])
    );
    assert_eq!(
        prepare(&registry(), &statement),
        Err(ExecuteError::Encode {
            position: 0,
            cause: EncodeError { kind: EncodeErrorKind::TypeMismatch, position: None },
        })
    );
}

#[test]
fn insert_with_only_text_set_returns_that_column_and_nulls() {
    let registry = registry();
    let statement = insert_text_col();
    let request = prepare(&registry, &statement).unwrap();
    let sent = request.arguments[0].wire.clone();
    let reply = Reply::Rows(vec![returned_row(sent.as_deref(), None)]);
    let record = fetch_one(complete(&registry, &statement, reply).unwrap()).unwrap();
    assert_eq!(
        record.get("text"),
        Some(&Value::Scalar(ScalarValue::Text("insert_text_col".to_string())))
    );
    for nullable in ["text_null", "citext_null", "mytext_null", "myenum_null"] {
        assert_eq!(record.get(nullable), Some(&Value::Scalar(ScalarValue::Null)), "{}", nullable);
    }
    assert_eq!(
        record.get("table1_id"),
        Some(&Value::Scalar(ScalarValue::Uuid(0x0707_0707_0707_0707_0707_0707_0707_0707)))
    );
    assert_eq!(record.fields.len(), 9);
    let row = Table1::from_record(&record).unwrap();
    assert_eq!(
        row,
        Table1 {
            table1_id: 0x0707_0707_0707_0707_0707_0707_0707_0707,
            text: "insert_text_col".to_string(),
            text_null: None,
            citext: "Default".to_string(),
            citext_null: None,
            mytext: MyText("default".to_string()),
            mytext_null: None,
            myenum: MyEnum::State1,
            myenum_null: None,
        }
    );
}

#[test]
fn table1_row_with_every_column_set() {
    let row = Row {
        columns: vec![
            raw("table1_id", Some(&[0, 0, 0, 0, 0, 0, 0, 0, 0, 0, 0, 0, 0, 0, 1, 2])),
            raw("text", Some(b"t")),
            raw("text_null", Some(b"tn")),
            raw("citext", Some(b"C")),
            raw("citext_null", Some(b"cn")),
            raw("mytext", Some(b"m")),
            raw("mytext_null", Some(b"mn")),
            raw("myenum", Some(b"state3")),
            raw("myenum_null", Some(b"state2")),
        ],
    };
    let record = bind(&registry(), &row, &table1_shape()).unwrap();
    assert_eq!(
        record.get("citext"),
        Some(&Value::Scalar(ScalarValue::Domain(DomainText {
            domain: "citext".to_string(),
            text: "C".to_string(),
        })))
    );
    assert_eq!(
        Table1::from_record(&record),
        Ok(Table1 {
            table1_id: 258,
            text: "t".to_string(),
            text_null: Some("tn".to_string()),
            citext: "C".to_string(),
            citext_null: Some("cn".to_string()),
            mytext: MyText("m".to_string()),
            mytext_null: Some(MyText("mn".to_string())),
            myenum: MyEnum::State3,
            myenum_null: Some(MyEnum::State2),
        })
    );
}

#[test]
fn table1_row_without_a_required_value_does_not_bind() {
    let registry = registry();
    let row = returned_row(None, Some(b"insert_text_null_col"));
    assert_eq!(
        bind(&registry, &row, &table1_shape()),
        Err(BindError::MissingColumn { column: "text".to_string() })
    );
    let reply = Reply::Rows(vec![row]);
    assert_eq!(
        complete(&registry, &insert_text_null_col(), reply),
        Err(ExecuteError::Bind {
            row: 0,
            cause: BindError::MissingColumn { column: "text".to_string() },
        })
    );
}

#[test]
fn table1_from_record_reports_the_first_field_at_fault() {
    let field = |name: &str, value: ScalarValue| Field {
        name: name.to_string(),
        value: Value::Scalar(value),
    };
    let text = |s: &str| ScalarValue::Text(s.to_string());
    let domain = |d: &str, s: &str| {
        ScalarValue::Domain(DomainText { domain: d.to_string(), text: s.to_string() })
    };
    let tag = |e: &str, m: &str| {
        ScalarValue::Enum(EnumTag { enum_name: e.to_string(), member: m.to_string() })
    };
    let fail = |name: &str, kind| Err(FieldError { field: name.to_string(), kind });
    let mut record = Record { fields: vec![] };
    assert_eq!(Table1::from_record(&record), fail("table1_id", FieldErrorKind::Missing));
    record.fields.push(field("table1_id", ScalarValue::Null));
    assert_eq!(Table1::from_record(&record), fail("table1_id", FieldErrorKind::Null));
    record.fields[0] = field("table1_id", text("7"));
    assert_eq!(Table1::from_record(&record), fail("table1_id", FieldErrorKind::WrongKind));
    record.fields[0] = field("table1_id", ScalarValue::Uuid(7));
    assert_eq!(Table1::from_record(&record), fail("text", FieldErrorKind::Missing));
    record.fields.push(field("text", ScalarValue::Null));
    assert_eq!(Table1::from_record(&record), fail("text", FieldErrorKind::Null));
    record.fields[1] = field("text", ScalarValue::Integer(1));
    assert_eq!(Table1::from_record(&record), fail("text", FieldErrorKind::WrongKind));
    record.fields[1] = field("text", text("t"));
    assert_eq!(Table1::from_record(&record), fail("text_null", FieldErrorKind::Missing));
    record.fields.push(field("text_null", domain("citext", "x")));
    assert_eq!(Table1::from_record(&record), fail("text_null", FieldErrorKind::WrongKind));
    record.fields[2] = field("text_null", ScalarValue::Null);
    record.fields.push(field("citext", text("plain")));
    assert_eq!(Table1::from_record(&record), fail("citext", FieldErrorKind::WrongKind));
    record.fields[3] = field("citext", domain("mytext", "c"));
    assert_eq!(Table1::from_record(&record), fail("citext", FieldErrorKind::WrongKind));
    record.fields[3] = field("citext", domain("citext", "c"));
    record.fields.push(field("citext_null", ScalarValue::Null));
    record.fields.push(field("mytext", ScalarValue::Null));
    assert_eq!(Table1::from_record(&record), fail("mytext", FieldErrorKind::Null));
    record.fields[5] = field("mytext", domain("mytext", "m"));
    record.fields.push(field("mytext_null", ScalarValue::Null));
    record.fields.push(field("myenum", tag("status", "state1")));
    assert_eq!(Table1::from_record(&record), fail("myenum", FieldErrorKind::WrongKind));
    record.fields[7] = field("myenum", tag("my_enum", "state9"));
    assert_eq!(Table1::from_record(&record), fail("myenum", FieldErrorKind::WrongKind));
    record.fields[7] = field("myenum", MyEnum::State2.to_value());
    assert_eq!(Table1::from_record(&record), fail("myenum_null", FieldErrorKind::Missing));
    record.fields.push(Field { name: "myenum_null".to_string(), value: Value::Array(vec![]) });
    assert_eq!(Table1::from_record(&record), fail("myenum_null", FieldErrorKind::WrongKind));
    record.fields[8] = field("myenum_null", ScalarValue::Null);
    let row = Table1::from_record(&record).unwrap();
    assert_eq!(row.myenum, MyEnum::State2);
    assert_eq!(row.table1_id, 7);
}

#[test]
fn select_myenum_array_decodes_every_member_in_order() {
    let registry = registry();
    let statement = select_myenum_array();
    assert_eq!(statement.text, "SELECT ARRAY(SELECT myenum FROM table1) AS myenums");
    assert_eq!(statement.returning, Some(my_enum_array_shape()));
    let request = prepare(&registry, &statement).unwrap();
    assert!(request.arguments.is_empty());
    let wire = enum_array(&[Some(b"state1"), Some(b"state3"), Some(b"state1")]);
    let reply = Reply::Rows(vec![Row { columns: vec![raw("myenums", Some(&wire))] }]);
    let record = fetch_one(complete(&registry, &statement, reply).unwrap()).unwrap();
    assert_eq!(
        MyEnumArray::from_record(&record),
        Ok(MyEnumArray { myenums: vec![MyEnum::State1, MyEnum::State3, MyEnum::State1] })
    );
    let empty = Reply::Rows(vec![Row {
        columns: vec![raw("myenums", Some(&enum_array(&[])))],
    }]);
    let record = fetch_one(complete(&registry, &statement, empty).unwrap()).unwrap();
    assert_eq!(MyEnumArray::from_record(&record), Ok(MyEnumArray { myenums: vec![] }));
}

#[test]
fn my_enum_array_refuses_nulls_and_other_values() {
    let fail = |kind| Err(FieldError { field: "myenums".to_string(), kind });
    let record = |value: Value| Record {
        fields: vec![Field { name: "myenums".to_string(), value }],
    };
    assert_eq!(
        MyEnumArray::from_record(&Record { fields: vec![] }),
        fail(FieldErrorKind::Missing)
    );
    assert_eq!(
        MyEnumArray::from_record(&record(Value::Scalar(ScalarValue::Null))),
        fail(FieldErrorKind::Null)
    );
    assert_eq!(
        MyEnumArray::from_record(&record(Value::Scalar(MyEnum::State1.to_value()))),
        fail(FieldErrorKind::WrongKind)
    );
    assert_eq!(
        MyEnumArray::from_record(&record(Value::Array(vec![
            MyEnum::State1.to_value(),
            ScalarValue::Null,
            ScalarValue::Boolean(true),
        ]))),
        fail(FieldErrorKind::Null)
    );
    assert_eq!(
        MyEnumArray::from_record(&record(Value::Array(vec![
            ScalarValue::Text("state1".to_string()),
            ScalarValue::Null,
        ]))),
        fail(FieldErrorKind::WrongKind)
    );
    let wire = enum_array(&[Some(b"state1"), None]);
    let row = Row { columns: vec![raw("myenums", Some(&wire))] };
    let bound = bind(&registry(), &row, &my_enum_array_shape()).unwrap();
    assert_eq!(MyEnumArray::from_record(&bound), fail(FieldErrorKind::Null));
}

#[test]
fn statements_in_a_transaction_run_in_order_and_commit_together() {
    let registry = registry();
    let mut script = insert_in_tx1();
    assert_eq!(script.statements().len(), 2);
    assert_eq!(script.statements()[1], insert_in_tx2());
    for statement in script.statements() {
        assert_eq!(statement.text, "INSERT INTO table1 (text) VALUES ($1)");
        assert_eq!(statement.returning, None);
    }
    let mut scope = TransactionScope::new();
    scope.begin().unwrap();
    let mut step = script.start(&mut scope, &registry).unwrap();
    let mut sent = 0;
    while let Step::Send(request) = step {
        assert_eq!(scope.statement_count(), sent);
        assert_eq!(request.text, "INSERT INTO table1 (text) VALUES ($1)");
        assert!(!request.returns_rows);
        assert_eq!(
            request.arguments,
            vec![Argument { target: "text".to_string(), wire: Some(b"insert_in_tx".to_vec()) }]
        );
        sent += 1;
        step = script.advance(&mut scope, &registry, Reply::Affected(1)).unwrap();
    }
    assert_eq!(sent, 2);
    assert_eq!(scope.statement_count(), 2);
    scope.commit().unwrap();
    assert_eq!(scope.state(), TxState::Committed);
}

#[test]
fn the_inner_statement_is_not_sent_where_the_outer_one_fails() {
    let registry = registry();
    let mut script = insert_in_tx1();
    let mut scope = TransactionScope::new();
    scope.begin().unwrap();
    script.start(&mut scope, &registry).unwrap();
    assert_eq!(
        script.advance(&mut scope, &registry, Reply::Failed("no such table".to_string())),
        Err(ExecuteError::Connection { message: "no such table".to_string() })
    );
    assert_eq!(script.position(), 0);
    assert_eq!(scope.statement_count(), 0);
    assert_eq!(scope.state(), TxState::Open);
}

#[test]
fn select_myenum_array_without_the_enum_registered_is_refused() {
    let registry = pgbind::registry::Registry::with_builtins();
    let statement = select_myenum_array();
    let wire = enum_array(&[Some(b"state1")]);
    let reply = Reply::Rows(vec![Row { columns: vec![raw("myenums", Some(&wire))] }]);
    assert_eq!(
        complete(&registry, &statement, reply),
        Err(ExecuteError::Bind {
            row: 0,
            cause: BindError::UnregisteredElementType { column: "myenums".to_string() },
        })
    );
    assert_eq!(
        registry.resolve(&my_enums_type()),
        Err(pgbind::registry::RegistryError::UnregisteredElementType)
    );
    assert_eq!(
        registry.lookup_array_of("my_enum"),
        Err(pgbind::registry::RegistryError::UnregisteredElementType)
    );
}
