use pgbind::binder::{BindError, ColumnShape, Field, RawColumn, Record, RecordShape, Row};
use pgbind::descriptor::{EnumDescriptor, TypeDescriptor};
use pgbind::error::{DecodeError, DecodeErrorKind, EncodeError, EncodeErrorKind};
use pgbind::executor::{
    bind_rows, complete, encode_parameters, fetch_one, prepare, Argument, ExecuteError,
    ExecutionResult, Parameter, Reply, Request, Statement,
};
use pgbind::registry::Registry;
use pgbind::value::{EnumTag, ScalarValue, Value};

fn catalog() -> Registry {
    let mut registry = Registry::with_builtins();
    let members = vec!["open".to_string(), "closed".to_string()];
    let status = EnumDescriptor::new("status".to_string(), 0x4001, members).unwrap();
    registry.register("status".to_string(), TypeDescriptor::Enum(status)).unwrap();
    registry
}

fn param(value: ScalarValue, target: &str) -> Parameter {
    Parameter { value: Value::Scalar(value), target: target.to_string() }
}

fn status_value(member: &str) -> ScalarValue {
    ScalarValue::Enum(EnumTag { enum_name: "status".to_string(), member: member.to_string() })
}

fn title_shape() -> RecordShape {
    RecordShape {
        columns: vec![ColumnShape {
            name: "title".to_string(),
            required: true,
            target: "text".to_string(),
        }],
    }
}

fn title_row(title: &[u8]) -> Row {
    Row { columns: vec![RawColumn { name: "title".to_string(), value: Some(title.to_vec()) }] }
}

fn title_record(title: &str) -> Record {
    Record {
        fields: vec![Field {
            name: "title".to_string(),
            value: Value::Scalar(ScalarValue::Text(title.to_string())),
        }],
    }
}

fn update() -> Statement {
    Statement {
        text: "UPDATE ticket SET state = $1 WHERE votes > $2".to_string(),
        parameters: vec![param(status_value("closed"), "status"), param(ScalarValue::Integer(2), "int8")],
        returning: None,
    }
}

fn select() -> Statement {
    Statement {
        text: "SELECT title FROM ticket".to_string(),
        parameters: vec![],
        returning: Some(title_shape()),
    }
}

#[test]
fn prepare_encodes_every_parameter_in_order() {
    let request = prepare(&catalog(), &update()).unwrap();
    assert_eq!(
        request,
        Request {
            text: "UPDATE ticket SET state = $1 WHERE votes > $2".to_string(),
            arguments: vec![
                Argument { target: "status".to_string(), wire: Some(b"closed".to_vec()) },
                Argument { target: "int8".to_string(), wire: Some(vec![0, 0, 0, 0, 0, 0, 0, 2]) },
            ],
            returns_rows: false,
        }
    );
}

#[test]
fn prepare_without_parameters_gives_the_text_alone() {
    assert_eq!(
        prepare(&Registry::new(), &select()),
        Ok(Request {
            text: "SELECT title FROM ticket".to_string(),
            arguments: vec![],
            returns_rows: true,
        })
    );
}

#[test]
fn prepare_sends_null_and_array_parameters() {
    let statement = Statement {
        text: "SELECT $1, $2".to_string(),
        parameters: vec![
            param(ScalarValue::Null, "status"),
            Parameter {
                value: Value::Array(vec![ScalarValue::Boolean(true)]),
                target: "_bool".to_string(),
            },
        ],
        returning: None,
    };
    let request = prepare(&catalog(), &statement).unwrap();
    assert_eq!(request.arguments[0], Argument { target: "status".to_string(), wire: None });
    assert_eq!(
        request.arguments[1].wire,
        Some(vec![0, 0, 0, 1, 0, 0, 0, 0, 0, 0, 0, 16, 0, 0, 0, 1, 0, 0, 0, 1, 0, 0, 0, 1, 1])
    );
}

#[test]
fn prepare_reports_the_first_parameter_that_fails() {
    let registry = catalog();
    let mut statement = update();
    statement.parameters[1] = param(ScalarValue::Text("2".to_string()), "int8");
    assert_eq!(
        prepare(&registry, &statement),
        Err(ExecuteError::Encode {
            position: 1,
            cause: EncodeError { kind: EncodeErrorKind::TypeMismatch, position: None },
        })
    );
    statement.parameters[0] = param(status_value("pending"), "status");
    assert_eq!(
        prepare(&registry, &statement),
        Err(ExecuteError::Encode {
            position: 0,
            cause: EncodeError { kind: EncodeErrorKind::UnknownEnumMember, position: None },
        })
    );
    statement.parameters[0] = param(status_value("open"), "colour");
    assert_eq!(prepare(&registry, &statement), Err(ExecuteError::UnregisteredType { position: 0 }));
    statement.parameters[0] = Parameter {
        value: Value::Array(vec![status_value("open")]),
        target: "_colour".to_string(),
    };
    assert_eq!(
        prepare(&registry, &statement),
        Err(ExecuteError::UnregisteredElementType { position: 0 })
    );
    statement.parameters[0] = Parameter {
        value: Value::Array(vec![status_value("open"), ScalarValue::Boolean(true)]),
        target: "_status".to_string(),
    };
    assert_eq!(
        encode_parameters(&registry, &statement.parameters),
        Err(ExecuteError::Encode {
            position: 0,
            cause: EncodeError { kind: EncodeErrorKind::TypeMismatch, position: Some(1) },
        })
    );
}

#[test]
fn complete_gives_the_affected_row_count() {
    assert_eq!(
        complete(&catalog(), &update(), Reply::Affected(3)),
        Ok(ExecutionResult::AffectedRowCount(3))
    );
    assert_eq!(
        complete(&catalog(), &update(), Reply::Affected(0)),
        Ok(ExecutionResult::AffectedRowCount(0))
    );
}

#[test]
fn complete_decodes_the_returned_rows() {
    let reply = Reply::Rows(vec![title_row(b"a"), title_row(b"b"), title_row(b"a")]);
    assert_eq!(
        complete(&catalog(), &select(), reply),
        Ok(ExecutionResult::RecordSet(vec![
            title_record("a"),
            title_record("b"),
            title_record("a"),
        ]))
    );
    assert_eq!(
        complete(&catalog(), &select(), Reply::Rows(vec![])),
        Ok(ExecutionResult::RecordSet(vec![]))
    );
}

#[test]
fn complete_reports_the_first_row_that_does_not_bind() {
    let rows = vec![title_row(b"a"), title_row(&[0xC0]), Row { columns: vec![] }];
    let expected = Err(ExecuteError::Bind {
        row: 1,
        cause: BindError::ColumnDecodeError {
            column: "title".to_string(),
            cause: DecodeError { kind: DecodeErrorKind::InvalidUtf8, position: None },
        },
    });
    assert_eq!(bind_rows(&catalog(), &rows, &title_shape()), expected);
    assert_eq!(
        complete(&catalog(), &select(), Reply::Rows(rows)).map(|_| Vec::<Record>::new()),
        expected
    );
    let rows = vec![Row { columns: vec![] }];
    assert_eq!(
        bind_rows(&catalog(), &rows, &title_shape()),
        Err(ExecuteError::Bind {
            row: 0,
            cause: BindError::MissingColumn { column: "title".to_string() },
        })
    );
}

#[test]
fn complete_surfaces_a_reported_failure() {
    let failed = Reply::Failed("connection reset".to_string());
    let expected = Err(ExecuteError::Connection { message: "connection reset".to_string() });
    assert_eq!(complete(&catalog(), &update(), failed.clone()), expected);
    assert_eq!(complete(&catalog(), &select(), failed), expected);
}

#[test]
fn complete_refuses_a_reply_of_the_wrong_kind() {
    assert_eq!(
        complete(&catalog(), &select(), Reply::Affected(1)),
        Err(ExecuteError::UnexpectedReply)
    );
    assert_eq!(
        complete(&catalog(), &update(), Reply::Rows(vec![])),
        Err(ExecuteError::UnexpectedReply)
    );
}

#[test]
fn fetch_one_on_zero_rows_fails() {
    assert_eq!(
        fetch_one(ExecutionResult::RecordSet(vec![])),
        Err(ExecuteError::NoRowsReturned)
    );
    assert_eq!(
        fetch_one(ExecutionResult::AffectedRowCount(5)),
        Err(ExecuteError::NoRowsReturned)
    );
}

#[test]
fn fetch_one_on_one_row_returns_its_record() {
    assert_eq!(
        fetch_one(ExecutionResult::RecordSet(vec![title_record("only")])),
        Ok(title_record("only"))
    );
}

#[test]
fn fetch_one_on_two_or_more_rows_fails() {
    assert_eq!(
        fetch_one(ExecutionResult::RecordSet(vec![title_record("a"), title_record("b")])),
        Err(ExecuteError::MultipleRowsReturned)
    );
    assert_eq!(
        fetch_one(ExecutionResult::RecordSet(vec![title_record("a"); 5])),
        Err(ExecuteError::MultipleRowsReturned)
    );
}
