//! A sample schema: one table with a column of each kind of user-defined
//! type that the codec knows, and the statements that exercise it.
//!
//! The table `table1` has an identifier, two text columns, two columns of
//! the case-insensitive text type `citext`, two of the text domain
//! `mytext` and two of the enumeration `my_enum`. Of each pair the first
//! holds a value in every row and the second may be null.

use crate::binder::{
    bind_column, bind_spec, lemma_bind_fault, lemma_record_get_bound, names_distinct,
    present_value, record_get, BindFault, ColumnShape, ColumnView, Record, RecordShape,
    RecordView, RowView, ShapeView,
};
use crate::codec::CodecView;
use crate::descriptor::{
    texts, ComparisonPolicy, DescriptorView, DomainDescriptor, DomainView, EnumDescriptor, EnumView,
    TypeDescriptor,
};
use crate::error::{EncodeError, EncodeErrorKind};
use crate::executor::{
    complete_spec, lemma_bind_rows_fault, lemma_encode_parameters_fault, prepare_spec,
    ExecuteFault, Parameter, ParameterView, ReplyView, RequestView, ResultView, Statement,
    StatementView,
};
use crate::registry::{
    array_name, array_name_of, builtin_types, element_name, lemma_array_name_resolves,
    resolve_spec, Registry, RegistryError,
};
use crate::script::{Script, ScriptView};
use crate::value::{scalar_views, DomainText, EnumTag, ScalarValue, ScalarView, Value, ValueView};
use vstd::prelude::*;
use vstd::string::*;

verus! {

/// The members of the enumeration `my_enum`.
#[derive(Debug, Clone, Copy, PartialEq, Eq, Structural)]
pub enum MyEnum {
    State1,
    State2,
    State3,
}

impl MyEnum {
    /// The name by which the database knows the member.
    pub open spec fn label_spec(self) -> Seq<char> {
        match self {
            MyEnum::State1 => "state1"@,
            MyEnum::State2 => "state2"@,
            MyEnum::State3 => "state3"@,
        }
    }

    /// The member that the database knows by the name `label`.
    pub open spec fn from_label_spec(label: Seq<char>) -> Option<MyEnum> {
        if label == "state1"@ {
            Some(MyEnum::State1)
        } else if label == "state2"@ {
            Some(MyEnum::State2)
        } else if label == "state3"@ {
            Some(MyEnum::State3)
        } else {
            None
        }
    }

    /// The name by which the database knows the member.
    pub fn label(self) -> (r: String)
        ensures
            r@ == self.label_spec(),
    {
        match self {
            MyEnum::State1 => "state1".to_owned(),
            MyEnum::State2 => "state2".to_owned(),
            MyEnum::State3 => "state3".to_owned(),
        }
    }

    /// The member that the database knows by the name `label`.
    pub fn from_label(label: &String) -> (r: Option<MyEnum>)
        ensures
            r == Self::from_label_spec(label@),
    {
        if *label == "state1".to_owned() {
            Some(MyEnum::State1)
        } else if *label == "state2".to_owned() {
            Some(MyEnum::State2)
        } else if *label == "state3".to_owned() {
            Some(MyEnum::State3)
        } else {
            None
        }
    }

    /// The member as a value of the enumeration `my_enum`.
    pub fn to_value(self) -> (r: ScalarValue)
        ensures
            r@ == (ScalarView::Enum { enum_name: "my_enum"@, member: self.label_spec() }),
    {
        ScalarValue::Enum(
            EnumTag { enum_name: "my_enum".to_owned(), member: self.label() },
        )
    }
}

/// The three member names differ, so a member is found again by its name.
pub proof fn lemma_label_round_trip(e: MyEnum, oid: u32)
    ensures
        MyEnum::from_label_spec(e.label_spec()) == Some(e),
        my_enum_view(oid).members.contains(e.label_spec()),
{
    reveal_strlit("state1");
    reveal_strlit("state2");
    reveal_strlit("state3");
    assert("state1"@[5] != "state2"@[5]);
    assert("state1"@[5] != "state3"@[5]);
    assert("state2"@[5] != "state3"@[5]);
    let members = my_enum_view(oid).members;
    assert(members[0] == "state1"@ && members[1] == "state2"@ && members[2] == "state3"@);
}

/// The enumeration `my_enum` as the database with object identifier `oid`
/// for it knows it.
pub open spec fn my_enum_view(oid: u32) -> EnumView {
    EnumView { name: "my_enum"@, oid, members: seq!["state1"@, "state2"@, "state3"@] }
}

/// The descriptor of the enumeration `my_enum`.
pub fn my_enum(oid: u32) -> (r: EnumDescriptor)
    ensures
        r@ == my_enum_view(oid),
{
    let mut members: Vec<String> = Vec::new();
    members.push("state1".to_owned());
    members.push("state2".to_owned());
    members.push("state3".to_owned());
    proof {
        reveal_strlit("state1");
        reveal_strlit("state2");
        reveal_strlit("state3");
        assert("state1"@[5] != "state2"@[5]);
        assert("state1"@[5] != "state3"@[5]);
        assert("state2"@[5] != "state3"@[5]);
        assert(texts(members@) =~= seq!["state1"@, "state2"@, "state3"@]);
    }
    EnumDescriptor::new("my_enum".to_owned(), oid, members).unwrap()
}

/// The text domain `mytext`, compared as text is.
pub open spec fn mytext_view(oid: u32) -> DomainView {
    DomainView { name: "mytext"@, oid, policy: ComparisonPolicy::Exact }
}

/// The text type `citext`, compared without regard to case.
pub open spec fn citext_view(oid: u32) -> DomainView {
    DomainView { name: "citext"@, oid, policy: ComparisonPolicy::CaseInsensitive }
}

/// The types of the sample schema: the built-in scalars, `my_enum`,
/// `mytext` and `citext`.
pub open spec fn sample_types(my_enum_oid: u32, mytext_oid: u32, citext_oid: u32) -> Map<
    Seq<char>,
    DescriptorView,
> {
    builtin_types().insert("my_enum"@, DescriptorView::Enum(my_enum_view(my_enum_oid))).insert(
        "mytext"@,
        DescriptorView::Domain(mytext_view(mytext_oid)),
    ).insert("citext"@, DescriptorView::Domain(citext_view(citext_oid)))
}

/// The registry of the sample schema, for a database that knows the three
/// user-defined types under the given object identifiers.
pub fn sample_registry(my_enum_oid: u32, mytext_oid: u32, citext_oid: u32) -> (r: Registry)
    ensures
        r@ == sample_types(my_enum_oid, mytext_oid, citext_oid),
{
    proof {
        reveal_strlit("text");
        reveal_strlit("bool");
        reveal_strlit("int8");
        reveal_strlit("float8");
        reveal_strlit("my_enum");
        reveal_strlit("mytext");
        reveal_strlit("citext");
        reveal_strlit("uuid");
        assert("my_enum"@.len() == 7);
        assert("uuid"@.len() == 4);
        assert("mytext"@[0] != "float8"@[0]);
        assert("citext"@[0] != "float8"@[0]);
        assert("citext"@[0] != "mytext"@[0]);
    }
    let mut r = Registry::with_builtins();
    let _ = r.register("my_enum".to_owned(), TypeDescriptor::Enum(my_enum(my_enum_oid)));
    let _ = r.register(
        "mytext".to_owned(),
        TypeDescriptor::Domain(
            DomainDescriptor {
                name: "mytext".to_owned(),
                oid: mytext_oid,
                policy: ComparisonPolicy::Exact,
            },
        ),
    );
    let _ = r.register(
        "citext".to_owned(),
        TypeDescriptor::Domain(
            DomainDescriptor {
                name: "citext".to_owned(),
                oid: citext_oid,
                policy: ComparisonPolicy::CaseInsensitive,
            },
        ),
    );
    r
}

/// The name of the array type of `my_enum`.
pub fn my_enums_type() -> (r: String)
    ensures
        r@ == array_name("my_enum"@),
{
    array_name_of("my_enum")
}

/// A declared column.
pub open spec fn column_view(name: Seq<char>, required: bool, target: Seq<char>) -> ColumnView {
    ColumnView { name, required, target }
}

fn column(name: &str, required: bool, target: &str) -> (r: ColumnShape)
    ensures
        r@ == column_view(name@, required, target@),
{
    ColumnShape { name: name.to_owned(), required, target: target.to_owned() }
}

/// The columns of `table1`.
pub open spec fn table1_columns() -> ShapeView {
    seq![
        column_view("table1_id"@, true, "uuid"@),
        column_view("text"@, true, "text"@),
        column_view("text_null"@, false, "text"@),
        column_view("citext"@, true, "citext"@),
        column_view("citext_null"@, false, "citext"@),
        column_view("mytext"@, true, "mytext"@),
        column_view("mytext_null"@, false, "mytext"@),
        column_view("myenum"@, true, "my_enum"@),
        column_view("myenum_null"@, false, "my_enum"@),
    ]
}

/// The shape of a row of `table1`.
pub fn table1_shape() -> (r: RecordShape)
    ensures
        r@ == table1_columns(),
{
    let mut columns: Vec<ColumnShape> = Vec::new();
    columns.push(column("table1_id", true, "uuid"));
    columns.push(column("text", true, "text"));
    columns.push(column("text_null", false, "text"));
    columns.push(column("citext", true, "citext"));
    columns.push(column("citext_null", false, "citext"));
    columns.push(column("mytext", true, "mytext"));
    columns.push(column("mytext_null", false, "mytext"));
    columns.push(column("myenum", true, "my_enum"));
    columns.push(column("myenum_null", false, "my_enum"));
    let r = RecordShape { columns };
    assert(r@ =~= table1_columns());
    r
}

/// The one column of the row that holds every `myenum` of the table as an
/// array.
pub open spec fn my_enum_array_columns() -> ShapeView {
    seq![column_view("myenums"@, true, array_name("my_enum"@))]
}

/// The shape of the row that holds every `myenum` of the table as an
/// array.
pub fn my_enum_array_shape() -> (r: RecordShape)
    ensures
        r@ == my_enum_array_columns(),
{
    let mut columns: Vec<ColumnShape> = Vec::new();
    columns.push(
        ColumnShape { name: "myenums".to_owned(), required: true, target: my_enums_type() },
    );
    let r = RecordShape { columns };
    assert(r@ =~= my_enum_array_columns());
    r
}

/// The text of a statement that inserts one row into `table1` and returns
/// the row: the values `values` go into the columns `columns`.
pub open spec fn insert_returning_text(columns: Seq<char>, values: Seq<char>) -> Seq<char> {
    "INSERT INTO table1 ("@ + columns + ") VALUES ("@ + values
        + ") RETURNING table1_id, text, text_null, citext, citext_null, mytext, mytext_null, myenum, myenum_null"@
}

/// A statement that inserts one row into `table1` and returns the row.
pub open spec fn insert_returning_view(
    columns: Seq<char>,
    values: Seq<char>,
    parameters: Seq<ParameterView>,
) -> StatementView {
    StatementView {
        text: insert_returning_text(columns, values),
        parameters,
        returning: Some(table1_columns()),
    }
}

/// A parameter that is sent as plain text.
pub open spec fn text_parameter(text: Seq<char>) -> ParameterView {
    ParameterView { value: ValueView::Scalar(ScalarView::Text(text)), target: "text"@ }
}

/// A parameter that is sent as `citext`.
pub open spec fn citext_parameter(value: ValueView) -> ParameterView {
    ParameterView { value, target: "citext"@ }
}

fn text_of(text: &str) -> (r: Parameter)
    ensures
        r@ == text_parameter(text@),
{
    Parameter { value: Value::Scalar(ScalarValue::Text(text.to_owned())), target: "text".to_owned() }
}

fn citext_of(value: Value) -> (r: Parameter)
    ensures
        r@ == citext_parameter(value@),
{
    Parameter { value, target: "citext".to_owned() }
}

fn insert_returning(columns: &str, values: &str, parameters: Vec<Parameter>) -> (r: Statement)
    ensures
        r@ == insert_returning_view(
            columns@,
            values@,
            parameters@.map_values(|p: Parameter| p@),
        ),
{
    let text = "INSERT INTO table1 (".to_owned().concat(columns).concat(") VALUES (").concat(
        values,
    ).concat(
        ") RETURNING table1_id, text, text_null, citext, citext_null, mytext, mytext_null, myenum, myenum_null",
    );
    Statement { text, parameters, returning: Some(table1_shape()) }
}

fn one(parameter: Parameter) -> (r: Vec<Parameter>)
    ensures
        r@.map_values(|p: Parameter| p@) == seq![parameter@],
{
    let mut parameters: Vec<Parameter> = Vec::new();
    parameters.push(parameter);
    assert(parameters@.map_values(|p: Parameter| p@) =~= seq![parameter@]);
    parameters
}

/// Inserts a row with only the column `text` set, from a text parameter.
pub fn insert_text_col() -> (r: Statement)
    ensures
        r@ == insert_returning_view("text"@, "$1"@, seq![text_parameter("insert_text_col"@)]),
{
    insert_returning("text", "$1", one(text_of("insert_text_col")))
}

/// Inserts a row with only the column `text_null` set, from a text
/// parameter.
pub fn insert_text_null_col() -> (r: Statement)
    ensures
        r@ == insert_returning_view(
            "text_null"@,
            "$1"@,
            seq![text_parameter("insert_text_null_col"@)],
        ),
{
    insert_returning("text_null", "$1", one(text_of("insert_text_null_col")))
}

/// Inserts a row with only the column `citext` set, from a parameter that
/// is itself of the type `citext`.
pub fn insert_citext_col() -> (r: Statement)
    ensures
        r@ == insert_returning_view(
            "citext"@,
            "$1"@,
            seq![
                citext_parameter(
                    ValueView::Scalar(
                        ScalarView::Domain { domain: "citext"@, text: "insert_citext"@ },
                    ),
                ),
            ],
        ),
{
    let value = Value::Scalar(
        ScalarValue::Domain(
            DomainText { domain: "citext".to_owned(), text: "insert_citext".to_owned() },
        ),
    );
    insert_returning("citext", "$1", one(citext_of(value)))
}

/// Inserts a row with only the column `citext_null` set, from a text
/// parameter that the statement casts.
pub fn insert_citext_null_col() -> (r: Statement)
    ensures
        r@ == insert_returning_view(
            "citext_null"@,
            "$1::TEXT::citext"@,
            seq![text_parameter("insert_citext_null_col"@)],
        ),
{
    insert_returning("citext_null", "$1::TEXT::citext", one(text_of("insert_citext_null_col")))
}

/// The parameters of `insert_citext_col_with_non_string`: a number and an
/// array of two texts, both declared as `citext`.
pub open spec fn non_string_parameters() -> Seq<ParameterView> {
    seq![
        citext_parameter(ValueView::Scalar(ScalarView::Integer(42))),
        citext_parameter(
            ValueView::Array(seq![ScalarView::Text("hello"@), ScalarView::Text("world"@)]),
        ),
    ]
}

/// Inserts a row with the two `citext` columns set from parameters that
/// are no text: a number and an array. No request comes of this statement:
/// see `lemma_non_string_is_refused`.
pub fn insert_citext_col_with_non_string() -> (r: Statement)
    ensures
        r@ == insert_returning_view("citext, citext_null"@, "$1, $2"@, non_string_parameters()),
{
    let mut words: Vec<ScalarValue> = Vec::new();
    words.push(ScalarValue::Text("hello".to_owned()));
    words.push(ScalarValue::Text("world".to_owned()));
    let array = Value::Array(words);
    assert(array@ == ValueView::Array(seq![ScalarView::Text("hello"@), ScalarView::Text("world"@)]))
        by {
        assert(scalar_views(words@) =~= seq![
            ScalarView::Text("hello"@),
            ScalarView::Text("world"@),
        ]);
    }
    let mut parameters: Vec<Parameter> = Vec::new();
    parameters.push(citext_of(Value::Scalar(ScalarValue::Integer(42))));
    parameters.push(citext_of(array));
    assert(parameters@.map_values(|p: Parameter| p@) =~= non_string_parameters());
    insert_returning("citext, citext_null", "$1, $2", parameters)
}

/// Inserts a row with only the column `mytext` set, from a text parameter
/// that the statement casts.
pub fn insert_mytext_col() -> (r: Statement)
    ensures
        r@ == insert_returning_view(
            "mytext"@,
            "$1::TEXT::mytext"@,
            seq![text_parameter("insert_mytext_col"@)],
        ),
{
    insert_returning("mytext", "$1::TEXT::mytext", one(text_of("insert_mytext_col")))
}

/// Inserts a row with only the column `mytext_null` set, from a text
/// parameter that the statement casts.
pub fn insert_mytext_null_col() -> (r: Statement)
    ensures
        r@ == insert_returning_view(
            "mytext_null"@,
            "$1::TEXT::mytext"@,
            seq![text_parameter("insert_mytext_null_col"@)],
        ),
{
    insert_returning("mytext_null", "$1::TEXT::mytext", one(text_of("insert_mytext_null_col")))
}

/// Selects one row that holds every `myenum` of the table as an array.
pub open spec fn select_myenum_array_view() -> StatementView {
    StatementView {
        text: "SELECT ARRAY(SELECT myenum FROM table1) AS myenums"@,
        parameters: Seq::empty(),
        returning: Some(my_enum_array_columns()),
    }
}

/// Selects one row that holds every `myenum` of the table as an array.
pub fn select_myenum_array() -> (r: Statement)
    ensures
        r@ == select_myenum_array_view(),
{
    let parameters: Vec<Parameter> = Vec::new();
    assert(parameters@.map_values(|p: Parameter| p@) =~= Seq::<ParameterView>::empty());
    Statement {
        text: "SELECT ARRAY(SELECT myenum FROM table1) AS myenums".to_owned(),
        parameters,
        returning: Some(my_enum_array_shape()),
    }
}

/// Where the enumeration `my_enum` was never registered, no array codec is
/// made up for the column `myenums`: the first returned row that holds the
/// column fails with `UnregisteredElementType`, and no record comes out.
pub proof fn lemma_select_myenum_array_needs_my_enum(
    types: Map<Seq<char>, DescriptorView>,
    rows: Seq<RowView>,
)
    requires
        !types.contains_key("my_enum"@),
        !types.contains_key(array_name("my_enum"@)),
        rows.len() > 0,
        present_value(rows[0], "myenums"@) is Some,
    ensures
        complete_spec(types, select_myenum_array_view().returning, ReplyView::Rows(rows)) == Err::<
            ResultView,
            ExecuteFault,
        >(
            ExecuteFault::Bind {
                row: 0,
                cause: BindFault::UnregisteredElementType { column: "myenums"@ },
            },
        ),
{
    let shape = my_enum_array_columns();
    lemma_array_name_resolves(types, "my_enum"@);
    assert(shape.subrange(0, 0) =~= Seq::<ColumnView>::empty());
    lemma_bind_fault(types, rows[0], shape, 0);
    assert(rows.subrange(0, 0) =~= Seq::<RowView>::empty());
    lemma_bind_rows_fault(types, rows, shape, 0);
}

/// Inserts a row with only the column `text` set and returns nothing.
pub open spec fn insert_in_tx_view() -> StatementView {
    StatementView {
        text: "INSERT INTO table1 (text) VALUES ($1)"@,
        parameters: seq![text_parameter("insert_in_tx"@)],
        returning: None,
    }
}

/// The statement of the inner of two operations that share a transaction.
pub fn insert_in_tx2() -> (r: Statement)
    ensures
        r@ == insert_in_tx_view(),
{
    Statement {
        text: "INSERT INTO table1 (text) VALUES ($1)".to_owned(),
        parameters: one(text_of("insert_in_tx")),
        returning: None,
    }
}

/// The script of the outer of two operations that share a transaction:
/// its own statement, and then that of the inner operation, to which it
/// hands the transaction on. The inner statement is sent only after the
/// outer one ran.
pub fn insert_in_tx1() -> (r: Script)
    ensures
        r@ == (ScriptView { statements: seq![insert_in_tx_view(), insert_in_tx_view()], position: 0 }),
{
    let own = Statement {
        text: "INSERT INTO table1 (text) VALUES ($1)".to_owned(),
        parameters: one(text_of("insert_in_tx")),
        returning: None,
    };
    let mut statements: Vec<Statement> = Vec::new();
    statements.push(own);
    statements.push(insert_in_tx2());
    assert(statements@.map_values(|s: Statement| s@) =~= seq![
        insert_in_tx_view(),
        insert_in_tx_view(),
    ]);
    Script::new(statements)
}

/// No request comes of `insert_citext_col_with_non_string`: its first
/// parameter is a number where `citext` calls for text, and the failure
/// names it.
pub proof fn lemma_non_string_is_refused(my_enum_oid: u32, mytext_oid: u32, citext_oid: u32)
    ensures
        prepare_spec(
            sample_types(my_enum_oid, mytext_oid, citext_oid),
            insert_returning_view("citext, citext_null"@, "$1, $2"@, non_string_parameters()),
        ) == Err::<RequestView, ExecuteFault>(
            ExecuteFault::Encode {
                position: 0,
                cause: EncodeError { kind: EncodeErrorKind::TypeMismatch, position: None },
            },
        ),
{
    let types = sample_types(my_enum_oid, mytext_oid, citext_oid);
    let parameters = non_string_parameters();
    assert(parameters.subrange(0, 0) =~= Seq::<ParameterView>::empty());
    assert(types.contains_key("citext"@));
    lemma_encode_parameters_fault(types, parameters, 0);
}

/// What was wrong with a field of a record that was to be read as a typed
/// value.
#[derive(Debug, Clone, Copy, PartialEq, Eq, Structural)]
pub enum FieldErrorKind {
    /// The record has no field of that name.
    Missing,
    /// The field is null where a value is called for.
    Null,
    /// The field holds a value of another kind.
    WrongKind,
}

/// A field of a record could not be read as a typed value.
#[derive(Debug, Clone, PartialEq, Eq)]
pub struct FieldError {
    pub field: String,
    pub kind: FieldErrorKind,
}

/// Mathematical model of a field failure.
pub struct FieldFault {
    pub field: Seq<char>,
    pub kind: FieldErrorKind,
}

impl View for FieldError {
    type V = FieldFault;

    open spec fn view(&self) -> FieldFault {
        FieldFault { field: self.field@, kind: self.kind }
    }
}

/// The model of a text that may be absent.
pub open spec fn optional_text_view(text: Option<String>) -> Option<Seq<char>> {
    match text {
        None => None,
        Some(s) => Some(s@),
    }
}

/// The plain text of the field `name`, or nothing where the field is
/// null.
pub open spec fn text_field_spec(record: RecordView, name: Seq<char>) -> Result<
    Option<Seq<char>>,
    FieldFault,
> {
    match record_get(record, name) {
        None => Err(FieldFault { field: name, kind: FieldErrorKind::Missing }),
        Some(ValueView::Scalar(ScalarView::Null)) => Ok(None),
        Some(ValueView::Scalar(ScalarView::Text(s))) => Ok(Some(s)),
        Some(_) => Err(FieldFault { field: name, kind: FieldErrorKind::WrongKind }),
    }
}

/// The text of the field `name`, which holds text of the domain `domain`,
/// or nothing where the field is null.
pub open spec fn domain_field_spec(record: RecordView, name: Seq<char>, domain: Seq<char>) -> Result<
    Option<Seq<char>>,
    FieldFault,
> {
    match record_get(record, name) {
        None => Err(FieldFault { field: name, kind: FieldErrorKind::Missing }),
        Some(ValueView::Scalar(ScalarView::Null)) => Ok(None),
        Some(ValueView::Scalar(ScalarView::Domain { domain: d, text })) => if d == domain {
            Ok(Some(text))
        } else {
            Err(FieldFault { field: name, kind: FieldErrorKind::WrongKind })
        },
        Some(_) => Err(FieldFault { field: name, kind: FieldErrorKind::WrongKind }),
    }
}

/// The identifier in the field `name`, or nothing where the field is
/// null.
pub open spec fn uuid_field_spec(record: RecordView, name: Seq<char>) -> Result<
    Option<u128>,
    FieldFault,
> {
    match record_get(record, name) {
        None => Err(FieldFault { field: name, kind: FieldErrorKind::Missing }),
        Some(ValueView::Scalar(ScalarView::Null)) => Ok(None),
        Some(ValueView::Scalar(ScalarView::Uuid(id))) => Ok(Some(id)),
        Some(_) => Err(FieldFault { field: name, kind: FieldErrorKind::WrongKind }),
    }
}

/// The member of `my_enum` that a scalar holds, or nothing where it is
/// null.
pub open spec fn my_enum_of(name: Seq<char>, v: ScalarView) -> Result<Option<MyEnum>, FieldFault> {
    match v {
        ScalarView::Null => Ok(None),
        ScalarView::Enum { enum_name, member } => if enum_name == "my_enum"@
            && MyEnum::from_label_spec(member) is Some {
            Ok(MyEnum::from_label_spec(member))
        } else {
            Err(FieldFault { field: name, kind: FieldErrorKind::WrongKind })
        },
        _ => Err(FieldFault { field: name, kind: FieldErrorKind::WrongKind }),
    }
}

/// The member of `my_enum` in the field `name`, or nothing where the field
/// is null.
pub open spec fn my_enum_field_spec(record: RecordView, name: Seq<char>) -> Result<
    Option<MyEnum>,
    FieldFault,
> {
    match record_get(record, name) {
        None => Err(FieldFault { field: name, kind: FieldErrorKind::Missing }),
        Some(ValueView::Scalar(v)) => my_enum_of(name, v),
        Some(_) => Err(FieldFault { field: name, kind: FieldErrorKind::WrongKind }),
    }
}

/// The value of a field that must hold one.
pub open spec fn required_spec<T>(name: Seq<char>, field: Result<Option<T>, FieldFault>) -> Result<
    T,
    FieldFault,
> {
    match field {
        Err(e) => Err(e),
        Ok(None) => Err(FieldFault { field: name, kind: FieldErrorKind::Null }),
        Ok(Some(v)) => Ok(v),
    }
}

fn fault<T>(name: &str, kind: FieldErrorKind) -> (r: Result<T, FieldError>)
    ensures
        r matches Err(e) && e@ == (FieldFault { field: name@, kind }),
{
    Err(FieldError { field: name.to_owned(), kind })
}

fn text_field(record: &Record, name: &str) -> (r: Result<Option<String>, FieldError>)
    ensures
        r matches Ok(o) ==> text_field_spec(record@, name@) == Ok::<Option<Seq<char>>, FieldFault>(
            optional_text_view(o),
        ),
        r matches Err(e) ==> text_field_spec(record@, name@) == Err::<
            Option<Seq<char>>,
            FieldFault,
        >(e@),
{
    match record.get(name) {
        None => fault(name, FieldErrorKind::Missing),
        Some(Value::Scalar(ScalarValue::Null)) => Ok(None),
        Some(Value::Scalar(ScalarValue::Text(s))) => Ok(Some(s.clone())),
        Some(_) => fault(name, FieldErrorKind::WrongKind),
    }
}

fn uuid_field(record: &Record, name: &str) -> (r: Result<Option<u128>, FieldError>)
    ensures
        r matches Ok(o) ==> uuid_field_spec(record@, name@) == Ok::<Option<u128>, FieldFault>(o),
        r matches Err(e) ==> uuid_field_spec(record@, name@) == Err::<Option<u128>, FieldFault>(
            e@,
        ),
{
    match record.get(name) {
        None => fault(name, FieldErrorKind::Missing),
        Some(Value::Scalar(ScalarValue::Null)) => Ok(None),
        Some(Value::Scalar(ScalarValue::Uuid(id))) => Ok(Some(*id)),
        Some(_) => fault(name, FieldErrorKind::WrongKind),
    }
}

fn domain_field(record: &Record, name: &str, domain: &str) -> (r: Result<
    Option<String>,
    FieldError,
>)
    ensures
        r matches Ok(o) ==> domain_field_spec(record@, name@, domain@) == Ok::<
            Option<Seq<char>>,
            FieldFault,
        >(optional_text_view(o)),
        r matches Err(e) ==> domain_field_spec(record@, name@, domain@) == Err::<
            Option<Seq<char>>,
            FieldFault,
        >(e@),
{
    match record.get(name) {
        None => fault(name, FieldErrorKind::Missing),
        Some(Value::Scalar(ScalarValue::Null)) => Ok(None),
        Some(Value::Scalar(ScalarValue::Domain(d))) => {
            if d.domain == domain.to_owned() {
                Ok(Some(d.text.clone()))
            } else {
                fault(name, FieldErrorKind::WrongKind)
            }
        },
        Some(_) => fault(name, FieldErrorKind::WrongKind),
    }
}

fn my_enum_in(name: &str, v: &ScalarValue) -> (r: Result<Option<MyEnum>, FieldError>)
    ensures
        r matches Ok(o) ==> my_enum_of(name@, v@) == Ok::<Option<MyEnum>, FieldFault>(o),
        r matches Err(e) ==> my_enum_of(name@, v@) == Err::<Option<MyEnum>, FieldFault>(e@),
{
    match v {
        ScalarValue::Null => Ok(None),
        ScalarValue::Enum(tag) => {
            if tag.enum_name == "my_enum".to_owned() {
                match MyEnum::from_label(&tag.member) {
                    Some(e) => Ok(Some(e)),
                    None => fault(name, FieldErrorKind::WrongKind),
                }
            } else {
                fault(name, FieldErrorKind::WrongKind)
            }
        },
        _ => fault(name, FieldErrorKind::WrongKind),
    }
}

fn my_enum_field(record: &Record, name: &str) -> (r: Result<Option<MyEnum>, FieldError>)
    ensures
        r matches Ok(o) ==> my_enum_field_spec(record@, name@) == Ok::<Option<MyEnum>, FieldFault>(
            o,
        ),
        r matches Err(e) ==> my_enum_field_spec(record@, name@) == Err::<
            Option<MyEnum>,
            FieldFault,
        >(e@),
{
    match record.get(name) {
        None => fault(name, FieldErrorKind::Missing),
        Some(Value::Scalar(v)) => my_enum_in(name, v),
        Some(_) => fault(name, FieldErrorKind::WrongKind),
    }
}

fn required<T>(name: &str, value: Option<T>) -> (r: Result<T, FieldError>)
    ensures
        value matches Some(v) ==> r == Ok::<T, FieldError>(v),
        value is None ==> (r matches Err(e) && e@ == (FieldFault {
            field: name@,
            kind: FieldErrorKind::Null,
        })),
{
    match value {
        Some(v) => Ok(v),
        None => fault(name, FieldErrorKind::Null),
    }
}

/// Text of the domain `mytext`: a type of its own, so that it is not taken
/// for plain text. The text is reached by naming the field.
#[derive(Debug, Clone, PartialEq, Eq)]
pub struct MyText(pub String);

/// Mathematical model of a row of `table1`.
pub struct Table1View {
    pub table1_id: u128,
    pub text: Seq<char>,
    pub text_null: Option<Seq<char>>,
    pub citext: Seq<char>,
    pub citext_null: Option<Seq<char>>,
    pub mytext: Seq<char>,
    pub mytext_null: Option<Seq<char>>,
    pub myenum: MyEnum,
    pub myenum_null: Option<MyEnum>,
}

/// A row of `table1` with each column as a value of its own type. The
/// identifier is held as its sixteen bytes in one number. The two `citext`
/// columns are unwrapped to plain text.
#[derive(Debug, Clone, PartialEq, Eq)]
pub struct Table1 {
    pub table1_id: u128,
    pub text: String,
    pub text_null: Option<String>,
    pub citext: String,
    pub citext_null: Option<String>,
    pub mytext: MyText,
    pub mytext_null: Option<MyText>,
    pub myenum: MyEnum,
    pub myenum_null: Option<MyEnum>,
}

impl View for Table1 {
    type V = Table1View;

    open spec fn view(&self) -> Table1View {
        Table1View {
            table1_id: self.table1_id,
            text: self.text@,
            text_null: optional_text_view(self.text_null),
            citext: self.citext@,
            citext_null: optional_text_view(self.citext_null),
            mytext: self.mytext.0@,
            mytext_null: match self.mytext_null {
                None => None,
                Some(t) => Some(t.0@),
            },
            myenum: self.myenum,
            myenum_null: self.myenum_null,
        }
    }
}

/// The row of `table1` that a record stands for, or the failure of the
/// first column, in the order of the columns, that does not hold what its
/// type calls for.
pub open spec fn table1_spec(record: RecordView) -> Result<Table1View, FieldFault> {
    let table1_id = required_spec("table1_id"@, uuid_field_spec(record, "table1_id"@));
    let text = required_spec("text"@, text_field_spec(record, "text"@));
    let text_null = text_field_spec(record, "text_null"@);
    let citext = required_spec("citext"@, domain_field_spec(record, "citext"@, "citext"@));
    let citext_null = domain_field_spec(record, "citext_null"@, "citext"@);
    let mytext = required_spec("mytext"@, domain_field_spec(record, "mytext"@, "mytext"@));
    let mytext_null = domain_field_spec(record, "mytext_null"@, "mytext"@);
    let myenum = required_spec("myenum"@, my_enum_field_spec(record, "myenum"@));
    let myenum_null = my_enum_field_spec(record, "myenum_null"@);
    if table1_id is Err {
        Err(table1_id->Err_0)
    } else if text is Err {
        Err(text->Err_0)
    } else if text_null is Err {
        Err(text_null->Err_0)
    } else if citext is Err {
        Err(citext->Err_0)
    } else if citext_null is Err {
        Err(citext_null->Err_0)
    } else if mytext is Err {
        Err(mytext->Err_0)
    } else if mytext_null is Err {
        Err(mytext_null->Err_0)
    } else if myenum is Err {
        Err(myenum->Err_0)
    } else if myenum_null is Err {
        Err(myenum_null->Err_0)
    } else {
        Ok(
            Table1View {
                table1_id: table1_id->Ok_0,
                text: text->Ok_0,
                text_null: text_null->Ok_0,
                citext: citext->Ok_0,
                citext_null: citext_null->Ok_0,
                mytext: mytext->Ok_0,
                mytext_null: mytext_null->Ok_0,
                myenum: myenum->Ok_0,
                myenum_null: myenum_null->Ok_0,
            },
        )
    }
}

impl Table1 {
    /// Reads a record that was bound to `table1_shape` as a row of
    /// `table1`.
    pub fn from_record(record: &Record) -> (r: Result<Table1, FieldError>)
        ensures
            r matches Ok(row) ==> table1_spec(record@) == Ok::<Table1View, FieldFault>(row@),
            r matches Err(e) ==> table1_spec(record@) == Err::<Table1View, FieldFault>(e@),
    {
        let table1_id = required("table1_id", uuid_field(record, "table1_id")?)?;
        let text = required("text", text_field(record, "text")?)?;
        let text_null = text_field(record, "text_null")?;
        let citext = required("citext", domain_field(record, "citext", "citext")?)?;
        let citext_null = domain_field(record, "citext_null", "citext")?;
        let mytext = required("mytext", domain_field(record, "mytext", "mytext")?)?;
        let mytext_null = match domain_field(record, "mytext_null", "mytext")? {
            None => None,
            Some(t) => Some(MyText(t)),
        };
        let myenum = required("myenum", my_enum_field(record, "myenum")?)?;
        let myenum_null = my_enum_field(record, "myenum_null")?;
        Ok(
            Table1 {
                table1_id,
                text,
                text_null,
                citext,
                citext_null,
                mytext: MyText(mytext),
                mytext_null,
                myenum,
                myenum_null,
            },
        )
    }
}

/// The members that the elements of an array hold, or the failure of the
/// first element that holds none: a null, or a value of another kind.
pub open spec fn my_enums_of(name: Seq<char>, items: Seq<ScalarView>) -> Result<
    Seq<MyEnum>,
    FieldFault,
>
    decreases items.len(),
{
    if items.len() == 0 {
        Ok(Seq::empty())
    } else {
        match my_enums_of(name, items.drop_last()) {
            Err(e) => Err(e),
            Ok(front) => match required_spec(name, my_enum_of(name, items.last())) {
                Err(e) => Err(e),
                Ok(member) => Ok(front.push(member)),
            },
        }
    }
}

/// The members in the array field `myenums` of a record.
pub open spec fn my_enum_array_spec(record: RecordView) -> Result<Seq<MyEnum>, FieldFault> {
    match record_get(record, "myenums"@) {
        None => Err(FieldFault { field: "myenums"@, kind: FieldErrorKind::Missing }),
        Some(ValueView::Scalar(ScalarView::Null)) => Err(
            FieldFault { field: "myenums"@, kind: FieldErrorKind::Null },
        ),
        Some(ValueView::Scalar(_)) => Err(
            FieldFault { field: "myenums"@, kind: FieldErrorKind::WrongKind },
        ),
        Some(ValueView::Array(items)) => my_enums_of("myenums"@, items),
    }
}

/// Where the elements in front of index `i` hold members and the one at
/// `i` does not, the array fails with that element's failure.
pub proof fn lemma_my_enums_fault(name: Seq<char>, items: Seq<ScalarView>, i: int)
    requires
        0 <= i < items.len(),
        my_enums_of(name, items.subrange(0, i)) is Ok,
        required_spec(name, my_enum_of(name, items[i])) is Err,
    ensures
        my_enums_of(name, items) == Err::<Seq<MyEnum>, FieldFault>(
            required_spec(name, my_enum_of(name, items[i]))->Err_0,
        ),
    decreases items.len(),
{
    if i == items.len() - 1 {
        assert(items.drop_last() =~= items.subrange(0, i));
    } else {
        let front = items.drop_last();
        assert(front.subrange(0, i) =~= items.subrange(0, i));
        lemma_my_enums_fault(name, front, i);
    }
}

/// The row that holds every `myenum` of the table as an array.
#[derive(Debug, Clone, PartialEq, Eq)]
pub struct MyEnumArray {
    pub myenums: Vec<MyEnum>,
}

impl MyEnumArray {
    /// Reads a record that was bound to `my_enum_array_shape`.
    pub fn from_record(record: &Record) -> (r: Result<MyEnumArray, FieldError>)
        ensures
            r matches Ok(row) ==> my_enum_array_spec(record@) == Ok::<Seq<MyEnum>, FieldFault>(
                row.myenums@,
            ),
            r matches Err(e) ==> my_enum_array_spec(record@) == Err::<Seq<MyEnum>, FieldFault>(
                e@,
            ),
    {
        match record.get("myenums") {
            None => fault("myenums", FieldErrorKind::Missing),
            Some(Value::Scalar(ScalarValue::Null)) => fault("myenums", FieldErrorKind::Null),
            Some(Value::Scalar(_)) => fault("myenums", FieldErrorKind::WrongKind),
            Some(Value::Array(items)) => {
                let ghost views = scalar_views(items@);
                let n = items.len();
                let mut myenums: Vec<MyEnum> = Vec::new();
                let mut i: usize = 0;
                while i < n
                    invariant
                        n == items@.len(),
                        views == scalar_views(items@),
                        record_get(record@, "myenums"@) == Some(ValueView::Array(views)),
                        i <= n,
                        my_enums_of("myenums"@, views.subrange(0, i as int)) == Ok::<
                            Seq<MyEnum>,
                            FieldFault,
                        >(myenums@),
                    decreases n - i,
                {
                    let ghost next = views.subrange(0, i + 1);
                    proof {
                        assert(next.drop_last() =~= views.subrange(0, i as int));
                        assert(next.last() == items@[i as int]@);
                    }
                    let member = match my_enum_in("myenums", &items[i]) {
                        Err(e) => {
                            proof {
                                lemma_my_enums_fault("myenums"@, views, i as int);
                            }
                            return Err(e);
                        },
                        Ok(None) => {
                            proof {
                                lemma_my_enums_fault("myenums"@, views, i as int);
                            }
                            return fault("myenums", FieldErrorKind::Null);
                        },
                        Ok(Some(member)) => member,
                    };
                    myenums.push(member);
                    i = i + 1;
                }
                proof {
                    assert(views.subrange(0, n as int) =~= views);
                }
                Ok(MyEnumArray { myenums })
            },
        }
    }
}

/// The declared columns of `table1` bear distinct names.
pub proof fn lemma_table1_columns_distinct()
    ensures
        names_distinct(table1_columns()),
{
    reveal_strlit("text");
    reveal_strlit("text_null");
    reveal_strlit("citext");
    reveal_strlit("citext_null");
    reveal_strlit("mytext");
    reveal_strlit("mytext_null");
    reveal_strlit("myenum");
    reveal_strlit("myenum_null");
    reveal_strlit("table1_id");
    let s = table1_columns();
    assert(s[0].name.len() == 9 && s[0].name[1] == 'a');
    assert(s[1].name.len() == 4 && s[2].name.len() == 9 && s[2].name[1] == 'e');
    assert(s[3].name.len() == 6 && s[3].name[0] == 'c');
    assert(s[4].name.len() == 11 && s[4].name[0] == 'c');
    assert(s[5].name.len() == 6 && s[5].name[0] == 'm' && s[5].name[2] == 't');
    assert(s[6].name.len() == 11 && s[6].name[0] == 'm' && s[6].name[2] == 't');
    assert(s[7].name.len() == 6 && s[7].name[0] == 'm' && s[7].name[2] == 'e');
    assert(s[8].name.len() == 11 && s[8].name[0] == 'm' && s[8].name[2] == 'e');
}

/// What the type references of the sample schema stand for.
pub proof fn lemma_sample_types_resolve(my_enum_oid: u32, mytext_oid: u32, citext_oid: u32)
    ensures
        resolve_spec(sample_types(my_enum_oid, mytext_oid, citext_oid), "text"@) == Ok::<
            CodecView,
            RegistryError,
        >(CodecView::Scalar(DescriptorView::Text)),
        resolve_spec(sample_types(my_enum_oid, mytext_oid, citext_oid), "citext"@) == Ok::<
            CodecView,
            RegistryError,
        >(CodecView::Scalar(DescriptorView::Domain(citext_view(citext_oid)))),
        resolve_spec(sample_types(my_enum_oid, mytext_oid, citext_oid), "mytext"@) == Ok::<
            CodecView,
            RegistryError,
        >(CodecView::Scalar(DescriptorView::Domain(mytext_view(mytext_oid)))),
        resolve_spec(sample_types(my_enum_oid, mytext_oid, citext_oid), "my_enum"@) == Ok::<
            CodecView,
            RegistryError,
        >(CodecView::Scalar(DescriptorView::Enum(my_enum_view(my_enum_oid)))),
        resolve_spec(sample_types(my_enum_oid, mytext_oid, citext_oid), "uuid"@) == Ok::<
            CodecView,
            RegistryError,
        >(CodecView::Scalar(DescriptorView::Uuid)),
        resolve_spec(
            sample_types(my_enum_oid, mytext_oid, citext_oid),
            array_name("my_enum"@),
        ) == Ok::<CodecView, RegistryError>(
            CodecView::Array(DescriptorView::Enum(my_enum_view(my_enum_oid))),
        ),
{
    reveal_strlit("text");
    reveal_strlit("bool");
    reveal_strlit("int8");
    reveal_strlit("float8");
    reveal_strlit("my_enum");
    reveal_strlit("mytext");
    reveal_strlit("citext");
    reveal_strlit("uuid");
    let types = sample_types(my_enum_oid, mytext_oid, citext_oid);
    assert("uuid"@.len() == 4 && "uuid"@[0] == 'u');
    assert("text"@.len() == 4 && "mytext"@.len() == 6 && "citext"@.len() == 6 && "my_enum"@.len()
        == 7);
    assert("mytext"@[0] != "citext"@[0]);
    assert("text"@[0] != "bool"@[0]);
    assert("text"@[0] != "int8"@[0]);
    assert(types.contains_key("text"@));
    assert(types["text"@] == DescriptorView::Text);
    assert(types.contains_key("my_enum"@));
    let array = array_name("my_enum"@);
    assert(array.len() == 8);
    assert(array[0] == '_');
    assert("float8"@[0] == 'f');
    assert("float8"@.len() == 6);
    assert("bool"@.len() == 4 && "int8"@.len() == 4);
    assert(!types.contains_key(array));
    assert(element_name(array) =~= "my_enum"@);
}

/// A column that is declared as `text` binds to a text, or to the null if
/// it is not required.
pub proof fn lemma_text_column_binds_to_text(
    types: Map<Seq<char>, DescriptorView>,
    row: RowView,
    name: Seq<char>,
    required: bool,
)
    requires
        resolve_spec(types, "text"@) == Ok::<CodecView, RegistryError>(
            CodecView::Scalar(DescriptorView::Text),
        ),
        bind_column(types, row, column_view(name, required, "text"@)) is Ok,
    ensures
        ({
            let v = bind_column(types, row, column_view(name, required, "text"@))->Ok_0;
            ||| v matches ValueView::Scalar(ScalarView::Text(_))
            ||| !required && v == ValueView::Scalar(ScalarView::Null)
        }),
{
}

/// A column that is declared as `uuid` binds to an identifier, or to the
/// null if it is not required.
pub proof fn lemma_uuid_column_binds_to_identifier(
    types: Map<Seq<char>, DescriptorView>,
    row: RowView,
    name: Seq<char>,
    required: bool,
)
    requires
        resolve_spec(types, "uuid"@) == Ok::<CodecView, RegistryError>(
            CodecView::Scalar(DescriptorView::Uuid),
        ),
        bind_column(types, row, column_view(name, required, "uuid"@)) is Ok,
    ensures
        ({
            let v = bind_column(types, row, column_view(name, required, "uuid"@))->Ok_0;
            ||| v matches ValueView::Scalar(ScalarView::Uuid(_))
            ||| !required && v == ValueView::Scalar(ScalarView::Null)
        }),
{
}

/// A column that is declared as a text domain binds to a text of that
/// domain, or to the null if it is not required.
pub proof fn lemma_domain_column_binds_to_domain_text(
    types: Map<Seq<char>, DescriptorView>,
    row: RowView,
    name: Seq<char>,
    required: bool,
    target: Seq<char>,
    domain: DomainView,
)
    requires
        resolve_spec(types, target) == Ok::<CodecView, RegistryError>(
            CodecView::Scalar(DescriptorView::Domain(domain)),
        ),
        bind_column(types, row, column_view(name, required, target)) is Ok,
    ensures
        ({
            let v = bind_column(types, row, column_view(name, required, target))->Ok_0;
            ||| v matches ValueView::Scalar(ScalarView::Domain { domain: d, text: _ }) && d
                == domain.name
            ||| !required && v == ValueView::Scalar(ScalarView::Null)
        }),
{
}

/// A column that is declared as `my_enum` binds to one of the three
/// members, or to the null if it is not required.
pub proof fn lemma_my_enum_column_binds_to_member(
    types: Map<Seq<char>, DescriptorView>,
    row: RowView,
    name: Seq<char>,
    required: bool,
    oid: u32,
)
    requires
        resolve_spec(types, "my_enum"@) == Ok::<CodecView, RegistryError>(
            CodecView::Scalar(DescriptorView::Enum(my_enum_view(oid))),
        ),
        bind_column(types, row, column_view(name, required, "my_enum"@)) is Ok,
    ensures
        ({
            let v = bind_column(types, row, column_view(name, required, "my_enum"@))->Ok_0;
            ||| v matches ValueView::Scalar(ScalarView::Enum { enum_name, member }) && enum_name
                == "my_enum"@ && MyEnum::from_label_spec(member) is Some
            ||| !required && v == ValueView::Scalar(ScalarView::Null)
        }),
{
    let v = bind_column(types, row, column_view(name, required, "my_enum"@))->Ok_0;
    if let ValueView::Scalar(ScalarView::Enum { enum_name, member }) = v {
        let members = my_enum_view(oid).members;
        assert(members.contains(member));
        let i = choose|i: int| 0 <= i < members.len() && members[i] == member;
        assert(members[0] == "state1"@ && members[1] == "state2"@ && members[2] == "state3"@);
    }
}

/// Every record that a row binds to under the shape of `table1`, with the
/// types of the sample schema, reads as a row of `table1`.
pub proof fn lemma_bound_record_reads_as_table1(
    my_enum_oid: u32,
    mytext_oid: u32,
    citext_oid: u32,
    row: RowView,
)
    requires
        bind_spec(sample_types(my_enum_oid, mytext_oid, citext_oid), row, table1_columns()) is Ok,
    ensures
        table1_spec(
            bind_spec(
                sample_types(my_enum_oid, mytext_oid, citext_oid),
                row,
                table1_columns(),
            )->Ok_0,
        ) is Ok,
{
    let types = sample_types(my_enum_oid, mytext_oid, citext_oid);
    let shape = table1_columns();
    let record = bind_spec(types, row, shape)->Ok_0;
    lemma_table1_columns_distinct();
    lemma_sample_types_resolve(my_enum_oid, mytext_oid, citext_oid);
    lemma_record_get_bound(types, row, shape, 0);
    lemma_record_get_bound(types, row, shape, 1);
    lemma_record_get_bound(types, row, shape, 2);
    lemma_record_get_bound(types, row, shape, 3);
    lemma_record_get_bound(types, row, shape, 4);
    lemma_record_get_bound(types, row, shape, 5);
    lemma_record_get_bound(types, row, shape, 6);
    lemma_record_get_bound(types, row, shape, 7);
    lemma_record_get_bound(types, row, shape, 8);
    lemma_uuid_column_binds_to_identifier(types, row, "table1_id"@, true);
    lemma_text_column_binds_to_text(types, row, "text"@, true);
    lemma_text_column_binds_to_text(types, row, "text_null"@, false);
    lemma_domain_column_binds_to_domain_text(
        types,
        row,
        "citext"@,
        true,
        "citext"@,
        citext_view(citext_oid),
    );
    lemma_domain_column_binds_to_domain_text(
        types,
        row,
        "citext_null"@,
        false,
        "citext"@,
        citext_view(citext_oid),
    );
    lemma_domain_column_binds_to_domain_text(
        types,
        row,
        "mytext"@,
        true,
        "mytext"@,
        mytext_view(mytext_oid),
    );
    lemma_domain_column_binds_to_domain_text(
        types,
        row,
        "mytext_null"@,
        false,
        "mytext"@,
        mytext_view(mytext_oid),
    );
    lemma_my_enum_column_binds_to_member(types, row, "myenum"@, true, my_enum_oid);
    lemma_my_enum_column_binds_to_member(types, row, "myenum_null"@, false, my_enum_oid);
    assert(required_spec("table1_id"@, uuid_field_spec(record, "table1_id"@)) is Ok);
    assert(text_field_spec(record, "text"@) is Ok);
    assert(required_spec("text"@, text_field_spec(record, "text"@)) is Ok);
    assert(text_field_spec(record, "text_null"@) is Ok);
    assert(required_spec("citext"@, domain_field_spec(record, "citext"@, "citext"@)) is Ok);
    assert(domain_field_spec(record, "citext_null"@, "citext"@) is Ok);
    assert(required_spec("mytext"@, domain_field_spec(record, "mytext"@, "mytext"@)) is Ok);
    assert(domain_field_spec(record, "mytext_null"@, "mytext"@) is Ok);
    assert(required_spec("myenum"@, my_enum_field_spec(record, "myenum"@)) is Ok);
    assert(my_enum_field_spec(record, "myenum_null"@) is Ok);
}

} // verus!
