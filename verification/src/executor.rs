//! The statement executor: what is sent for a statement, and what the
//! server's reply means.
//!
//! The executor does no I/O. `prepare` turns a statement into the request
//! to send, with every parameter encoded; the caller sends it once and
//! hands the reply to `complete`, which decodes it. Nothing is retried.

use crate::binder::{
    bind, bind_spec, record_views, row_views, BindError, BindFault, Record, RecordShape,
    RecordView, Row, RowView, ShapeView,
};
use crate::descriptor::DescriptorView;
use crate::error::EncodeError;
use crate::registry::{resolve_spec, Registry, RegistryError};
use crate::value::{wire_view, Value, ValueView};
use vstd::prelude::*;

verus! {

/// An application value that takes the place of a parameter placeholder,
/// with the reference to the type that it is sent as.
#[derive(Debug, Clone, PartialEq, Eq)]
pub struct Parameter {
    pub value: Value,
    pub target: String,
}

/// Mathematical model of a parameter.
pub struct ParameterView {
    pub value: ValueView,
    pub target: Seq<char>,
}

impl View for Parameter {
    type V = ParameterView;

    open spec fn view(&self) -> ParameterView {
        ParameterView { value: self.value@, target: self.target@ }
    }
}

/// A statement: its text, the values for its placeholders in order, and
/// the shape of the rows that it returns, if it returns rows.
#[derive(Debug, Clone, PartialEq, Eq)]
pub struct Statement {
    pub text: String,
    pub parameters: Vec<Parameter>,
    pub returning: Option<RecordShape>,
}

/// Mathematical model of a statement.
pub struct StatementView {
    pub text: Seq<char>,
    pub parameters: Seq<ParameterView>,
    pub returning: Option<ShapeView>,
}

impl View for Statement {
    type V = StatementView;

    open spec fn view(&self) -> StatementView {
        StatementView {
            text: self.text@,
            parameters: self.parameters@.map_values(|p: Parameter| p@),
            returning: match self.returning {
                None => None,
                Some(shape) => Some(shape@),
            },
        }
    }
}

/// An encoded parameter: the type reference and the wire value.
#[derive(Debug, Clone, PartialEq, Eq)]
pub struct Argument {
    pub target: String,
    pub wire: Option<Vec<u8>>,
}

/// Mathematical model of an encoded parameter.
pub struct ArgumentView {
    pub target: Seq<char>,
    pub wire: Option<Seq<u8>>,
}

impl View for Argument {
    type V = ArgumentView;

    open spec fn view(&self) -> ArgumentView {
        ArgumentView { target: self.target@, wire: wire_view(self.wire) }
    }
}

/// The models of a sequence of encoded parameters.
pub open spec fn argument_views(arguments: Seq<Argument>) -> Seq<ArgumentView> {
    arguments.map_values(|a: Argument| a@)
}

/// What is sent to the server for one statement: the text, the encoded
/// parameters, and whether rows are asked for in reply.
#[derive(Debug, Clone, PartialEq, Eq)]
pub struct Request {
    pub text: String,
    pub arguments: Vec<Argument>,
    pub returns_rows: bool,
}

/// Mathematical model of a request.
pub struct RequestView {
    pub text: Seq<char>,
    pub arguments: Seq<ArgumentView>,
    pub returns_rows: bool,
}

impl View for Request {
    type V = RequestView;

    open spec fn view(&self) -> RequestView {
        RequestView {
            text: self.text@,
            arguments: argument_views(self.arguments@),
            returns_rows: self.returns_rows,
        }
    }
}

/// What came back from the server for one request.
#[derive(Debug, Clone, PartialEq, Eq)]
pub enum Reply {
    /// The statement ran and returned no rows; so many rows were affected.
    Affected(u64),
    /// The statement ran and returned these rows.
    Rows(Vec<Row>),
    /// The connection or the server reported a failure.
    Failed(String),
}

/// Mathematical model of a reply.
pub enum ReplyView {
    Affected(u64),
    Rows(Seq<RowView>),
    Failed(Seq<char>),
}

impl View for Reply {
    type V = ReplyView;

    open spec fn view(&self) -> ReplyView {
        match self {
            Reply::Affected(n) => ReplyView::Affected(*n),
            Reply::Rows(rows) => ReplyView::Rows(row_views(rows@)),
            Reply::Failed(message) => ReplyView::Failed(message@),
        }
    }
}

/// The outcome of a statement that ran.
#[derive(Debug, Clone, PartialEq, Eq)]
pub enum ExecutionResult {
    /// The number of rows that a statement without returned rows affected.
    AffectedRowCount(u64),
    /// The decoded rows of a statement that returns rows.
    RecordSet(Vec<Record>),
}

/// Mathematical model of an execution result.
pub enum ResultView {
    AffectedRowCount(u64),
    RecordSet(Seq<RecordView>),
}

impl View for ExecutionResult {
    type V = ResultView;

    open spec fn view(&self) -> ResultView {
        match self {
            ExecutionResult::AffectedRowCount(n) => ResultView::AffectedRowCount(*n),
            ExecutionResult::RecordSet(records) => ResultView::RecordSet(record_views(records@)),
        }
    }
}

/// Why a statement did not give a result.
#[derive(Debug, Clone, PartialEq, Eq)]
pub enum ExecuteError {
    /// The type reference of the parameter at `position` is not registered.
    UnregisteredType { position: usize },
    /// The type reference of the parameter at `position` is an array type
    /// whose element type is not registered.
    UnregisteredElementType { position: usize },
    /// The parameter at `position` is no value of its target type.
    Encode { position: usize, cause: EncodeError },
    /// The returned row at index `row` does not bind to the declared shape.
    Bind { row: usize, cause: BindError },
    /// The connection or the server reported a failure.
    Connection { message: String },
    /// The reply is not of the kind that the statement calls for.
    UnexpectedReply,
    /// Exactly one row was asked for and none came.
    NoRowsReturned,
    /// Exactly one row was asked for and more came.
    MultipleRowsReturned,
    /// A statement of the transaction is under way: its reply was not
    /// handed in yet.
    StatementInFlight,
    /// The reply handed in belongs to no statement that is under way.
    StatementNotInFlight,
    /// The transaction was begun before.
    TransactionAlreadyOpen,
    /// The transaction was not begun yet.
    TransactionNotStarted,
    /// The transaction was committed or rolled back before.
    TransactionClosed,
}

/// Mathematical model of an execution failure.
pub enum ExecuteFault {
    UnregisteredType { position: usize },
    UnregisteredElementType { position: usize },
    Encode { position: usize, cause: EncodeError },
    Bind { row: usize, cause: BindFault },
    Connection { message: Seq<char> },
    UnexpectedReply,
    NoRowsReturned,
    MultipleRowsReturned,
    StatementInFlight,
    StatementNotInFlight,
    TransactionAlreadyOpen,
    TransactionNotStarted,
    TransactionClosed,
}

impl View for ExecuteError {
    type V = ExecuteFault;

    open spec fn view(&self) -> ExecuteFault {
        match self {
            ExecuteError::UnregisteredType { position } => ExecuteFault::UnregisteredType {
                position: *position,
            },
            ExecuteError::UnregisteredElementType {
                position,
            } => ExecuteFault::UnregisteredElementType { position: *position },
            ExecuteError::Encode { position, cause } => ExecuteFault::Encode {
                position: *position,
                cause: *cause,
            },
            ExecuteError::Bind { row, cause } => ExecuteFault::Bind { row: *row, cause: cause@ },
            ExecuteError::Connection { message } => ExecuteFault::Connection { message: message@ },
            ExecuteError::UnexpectedReply => ExecuteFault::UnexpectedReply,
            ExecuteError::NoRowsReturned => ExecuteFault::NoRowsReturned,
            ExecuteError::MultipleRowsReturned => ExecuteFault::MultipleRowsReturned,
            ExecuteError::StatementInFlight => ExecuteFault::StatementInFlight,
            ExecuteError::StatementNotInFlight => ExecuteFault::StatementNotInFlight,
            ExecuteError::TransactionAlreadyOpen => ExecuteFault::TransactionAlreadyOpen,
            ExecuteError::TransactionNotStarted => ExecuteFault::TransactionNotStarted,
            ExecuteError::TransactionClosed => ExecuteFault::TransactionClosed,
        }
    }
}

/// The encoded form of the parameter that stands at `position`.
pub open spec fn encode_parameter_spec(
    types: Map<Seq<char>, DescriptorView>,
    parameter: ParameterView,
    position: int,
) -> Result<ArgumentView, ExecuteFault> {
    match resolve_spec(types, parameter.target) {
        Err(RegistryError::UnregisteredElementType) => Err(
            ExecuteFault::UnregisteredElementType { position: position as usize },
        ),
        Err(_) => Err(ExecuteFault::UnregisteredType { position: position as usize }),
        Ok(codec) => match codec.encode(parameter.value) {
            Err(cause) => Err(ExecuteFault::Encode { position: position as usize, cause }),
            Ok(wire) => Ok(ArgumentView { target: parameter.target, wire }),
        },
    }
}

/// The encoded forms of the parameters in order, or the failure of the
/// first parameter that has one.
pub open spec fn encode_parameters_spec(
    types: Map<Seq<char>, DescriptorView>,
    parameters: Seq<ParameterView>,
) -> Result<Seq<ArgumentView>, ExecuteFault>
    decreases parameters.len(),
{
    if parameters.len() == 0 {
        Ok(Seq::empty())
    } else {
        match encode_parameters_spec(types, parameters.drop_last()) {
            Err(e) => Err(e),
            Ok(front) => match encode_parameter_spec(
                types,
                parameters.last(),
                parameters.len() - 1,
            ) {
                Err(e) => Err(e),
                Ok(argument) => Ok(front.push(argument)),
            },
        }
    }
}

/// The request that a statement is sent as: its text unchanged, its
/// parameters encoded, and rows asked for exactly where the statement
/// declares the shape of returned rows.
pub open spec fn prepare_spec(
    types: Map<Seq<char>, DescriptorView>,
    statement: StatementView,
) -> Result<RequestView, ExecuteFault> {
    match encode_parameters_spec(types, statement.parameters) {
        Err(e) => Err(e),
        Ok(arguments) => Ok(
            RequestView {
                text: statement.text,
                arguments,
                returns_rows: statement.returning is Some,
            },
        ),
    }
}

/// The records that rows give under a shape, or the failure of the first
/// row that does not bind.
pub open spec fn bind_rows_spec(
    types: Map<Seq<char>, DescriptorView>,
    rows: Seq<RowView>,
    shape: ShapeView,
) -> Result<Seq<RecordView>, ExecuteFault>
    decreases rows.len(),
{
    if rows.len() == 0 {
        Ok(Seq::empty())
    } else {
        match bind_rows_spec(types, rows.drop_last(), shape) {
            Err(e) => Err(e),
            Ok(front) => match bind_spec(types, rows.last(), shape) {
                Err(cause) => Err(ExecuteFault::Bind { row: (rows.len() - 1) as usize, cause }),
                Ok(record) => Ok(front.push(record)),
            },
        }
    }
}

/// What a reply means for a statement. A reported failure is a connection
/// error. A statement that declares no returned shape calls for a count of
/// affected rows; one that declares a shape calls for rows, each of which
/// is bound to the shape.
pub open spec fn complete_spec(
    types: Map<Seq<char>, DescriptorView>,
    returning: Option<ShapeView>,
    reply: ReplyView,
) -> Result<ResultView, ExecuteFault> {
    match reply {
        ReplyView::Failed(message) => Err(ExecuteFault::Connection { message }),
        ReplyView::Affected(n) => match returning {
            None => Ok(ResultView::AffectedRowCount(n)),
            Some(_) => Err(ExecuteFault::UnexpectedReply),
        },
        ReplyView::Rows(rows) => match returning {
            None => Err(ExecuteFault::UnexpectedReply),
            Some(shape) => match bind_rows_spec(types, rows, shape) {
                Err(e) => Err(e),
                Ok(records) => Ok(ResultView::RecordSet(records)),
            },
        },
    }
}

/// The single record of a result: the one record of a record set of one,
/// and a failure for a set of none or of several. A count of affected rows
/// holds no row.
pub open spec fn fetch_one_spec(result: ResultView) -> Result<RecordView, ExecuteFault> {
    match result {
        ResultView::AffectedRowCount(_) => Err(ExecuteFault::NoRowsReturned),
        ResultView::RecordSet(records) => if records.len() == 0 {
            Err(ExecuteFault::NoRowsReturned)
        } else if records.len() == 1 {
            Ok(records[0])
        } else {
            Err(ExecuteFault::MultipleRowsReturned)
        },
    }
}

/// Where the parameters in front of index `i` encode and the one at `i`
/// does not, the statement fails with that parameter's failure.
pub proof fn lemma_encode_parameters_fault(
    types: Map<Seq<char>, DescriptorView>,
    parameters: Seq<ParameterView>,
    i: int,
)
    requires
        0 <= i < parameters.len(),
        encode_parameters_spec(types, parameters.subrange(0, i)) is Ok,
        encode_parameter_spec(types, parameters[i], i) is Err,
    ensures
        encode_parameters_spec(types, parameters) == Err::<Seq<ArgumentView>, ExecuteFault>(
            encode_parameter_spec(types, parameters[i], i)->Err_0,
        ),
    decreases parameters.len(),
{
    if i == parameters.len() - 1 {
        assert(parameters.drop_last() =~= parameters.subrange(0, i));
    } else {
        let front = parameters.drop_last();
        assert(front.subrange(0, i) =~= parameters.subrange(0, i));
        lemma_encode_parameters_fault(types, front, i);
    }
}

/// A request that comes out is whole: it has the text of the statement,
/// and for every parameter, in order, the argument that the parameter
/// encodes to.
pub proof fn lemma_prepared_request_is_whole(
    types: Map<Seq<char>, DescriptorView>,
    statement: StatementView,
)
    requires
        prepare_spec(types, statement) is Ok,
    ensures
        prepare_spec(types, statement)->Ok_0.text == statement.text,
        prepare_spec(types, statement)->Ok_0.returns_rows == (statement.returning is Some),
        prepare_spec(types, statement)->Ok_0.arguments.len() == statement.parameters.len(),
        forall|i: int|
            0 <= i < statement.parameters.len() ==> encode_parameter_spec(
                types,
                statement.parameters[i],
                i,
            ) == Ok::<ArgumentView, ExecuteFault>(
                #[trigger] prepare_spec(types, statement)->Ok_0.arguments[i],
            ),
{
    lemma_encoded_parameters_are_whole(types, statement.parameters);
}

/// The arguments that come out are one for each parameter, in order.
pub proof fn lemma_encoded_parameters_are_whole(
    types: Map<Seq<char>, DescriptorView>,
    parameters: Seq<ParameterView>,
)
    requires
        encode_parameters_spec(types, parameters) is Ok,
    ensures
        encode_parameters_spec(types, parameters)->Ok_0.len() == parameters.len(),
        forall|i: int|
            0 <= i < parameters.len() ==> encode_parameter_spec(types, parameters[i], i) == Ok::<
                ArgumentView,
                ExecuteFault,
            >(#[trigger] encode_parameters_spec(types, parameters)->Ok_0[i]),
    decreases parameters.len(),
{
    if parameters.len() > 0 {
        lemma_encoded_parameters_are_whole(types, parameters.drop_last());
    }
}

/// Where the rows in front of index `i` bind and the one at `i` does not,
/// the reply fails with that row's failure and index.
pub proof fn lemma_bind_rows_fault(
    types: Map<Seq<char>, DescriptorView>,
    rows: Seq<RowView>,
    shape: ShapeView,
    i: int,
)
    requires
        0 <= i < rows.len(),
        bind_rows_spec(types, rows.subrange(0, i), shape) is Ok,
        bind_spec(types, rows[i], shape) is Err,
    ensures
        bind_rows_spec(types, rows, shape) == Err::<Seq<RecordView>, ExecuteFault>(
            ExecuteFault::Bind { row: i as usize, cause: bind_spec(types, rows[i], shape)->Err_0 },
        ),
    decreases rows.len(),
{
    if i == rows.len() - 1 {
        assert(rows.drop_last() =~= rows.subrange(0, i));
    } else {
        let front = rows.drop_last();
        assert(front.subrange(0, i) =~= rows.subrange(0, i));
        lemma_bind_rows_fault(types, front, shape, i);
    }
}

/// Encodes the parameters of a statement in order, each by the codec that
/// `registry` has for its type reference.
pub fn encode_parameters(registry: &Registry, parameters: &Vec<Parameter>) -> (r: Result<
    Vec<Argument>,
    ExecuteError,
>)
    ensures
        r matches Ok(arguments) ==> encode_parameters_spec(
            registry@,
            parameters@.map_values(|p: Parameter| p@),
        ) == Ok::<Seq<ArgumentView>, ExecuteFault>(argument_views(arguments@)),
        r matches Err(e) ==> encode_parameters_spec(
            registry@,
            parameters@.map_values(|p: Parameter| p@),
        ) == Err::<Seq<ArgumentView>, ExecuteFault>(e@),
{
    let ghost given = parameters@.map_values(|p: Parameter| p@);
    let n = parameters.len();
    let mut arguments: Vec<Argument> = Vec::new();
    let mut i: usize = 0;
    proof {
        assert(argument_views(arguments@) =~= Seq::<ArgumentView>::empty());
    }
    while i < n
        invariant
            n == parameters@.len(),
            given == parameters@.map_values(|p: Parameter| p@),
            i <= n,
            encode_parameters_spec(registry@, given.subrange(0, i as int)) == Ok::<
                Seq<ArgumentView>,
                ExecuteFault,
            >(argument_views(arguments@)),
        decreases n - i,
    {
        let ghost seen = argument_views(arguments@);
        let ghost next = given.subrange(0, i + 1);
        proof {
            assert(next.drop_last() =~= given.subrange(0, i as int));
            assert(next.last() == parameters@[i as int]@);
        }
        let parameter = &parameters[i];
        let wire = match registry.resolve(parameter.target.as_str()) {
            Err(RegistryError::UnregisteredElementType) => {
                proof {
                    lemma_encode_parameters_fault(registry@, given, i as int);
                }
                return Err(ExecuteError::UnregisteredElementType { position: i });
            },
            Err(_) => {
                proof {
                    lemma_encode_parameters_fault(registry@, given, i as int);
                }
                return Err(ExecuteError::UnregisteredType { position: i });
            },
            Ok(codec) => match codec.encode(&parameter.value) {
                Err(cause) => {
                    proof {
                        lemma_encode_parameters_fault(registry@, given, i as int);
                    }
                    return Err(ExecuteError::Encode { position: i, cause });
                },
                Ok(wire) => wire,
            },
        };
        let argument = Argument { target: parameter.target.clone(), wire };
        let ghost added = argument@;
        arguments.push(argument);
        proof {
            assert(argument_views(arguments@) =~= seen.push(added));
        }
        i = i + 1;
    }
    proof {
        assert(given.subrange(0, n as int) =~= given);
    }
    Ok(arguments)
}

/// The request to send for `statement`.
pub fn prepare(registry: &Registry, statement: &Statement) -> (r: Result<Request, ExecuteError>)
    ensures
        r matches Ok(request) ==> prepare_spec(registry@, statement@) == Ok::<
            RequestView,
            ExecuteFault,
        >(request@),
        r matches Err(e) ==> prepare_spec(registry@, statement@) == Err::<
            RequestView,
            ExecuteFault,
        >(e@),
{
    match encode_parameters(registry, &statement.parameters) {
        Err(e) => Err(e),
        Ok(arguments) => Ok(
            Request {
                text: statement.text.clone(),
                arguments,
                returns_rows: statement.returning.is_some(),
            },
        ),
    }
}

/// Binds every returned row to `shape`, up to the first that does not
/// bind.
pub fn bind_rows(registry: &Registry, rows: &Vec<Row>, shape: &RecordShape) -> (r: Result<
    Vec<Record>,
    ExecuteError,
>)
    ensures
        r matches Ok(records) ==> bind_rows_spec(registry@, row_views(rows@), shape@) == Ok::<
            Seq<RecordView>,
            ExecuteFault,
        >(record_views(records@)),
        r matches Err(e) ==> bind_rows_spec(registry@, row_views(rows@), shape@) == Err::<
            Seq<RecordView>,
            ExecuteFault,
        >(e@),
{
    let ghost raw = row_views(rows@);
    let n = rows.len();
    let mut records: Vec<Record> = Vec::new();
    let mut i: usize = 0;
    proof {
        assert(record_views(records@) =~= Seq::<RecordView>::empty());
    }
    while i < n
        invariant
            n == rows@.len(),
            raw == row_views(rows@),
            i <= n,
            bind_rows_spec(registry@, raw.subrange(0, i as int), shape@) == Ok::<
                Seq<RecordView>,
                ExecuteFault,
            >(record_views(records@)),
        decreases n - i,
    {
        let ghost seen = record_views(records@);
        let ghost next = raw.subrange(0, i + 1);
        proof {
            assert(next.drop_last() =~= raw.subrange(0, i as int));
            assert(next.last() == rows@[i as int]@);
        }
        match bind(registry, &rows[i], shape) {
            Err(cause) => {
                proof {
                    lemma_bind_rows_fault(registry@, raw, shape@, i as int);
                }
                return Err(ExecuteError::Bind { row: i, cause });
            },
            Ok(record) => {
                let ghost added = record@;
                records.push(record);
                proof {
                    assert(record_views(records@) =~= seen.push(added));
                }
            },
        }
        i = i + 1;
    }
    proof {
        assert(raw.subrange(0, n as int) =~= raw);
    }
    Ok(records)
}

/// The result that `reply` gives for `statement`.
pub fn complete(registry: &Registry, statement: &Statement, reply: Reply) -> (r: Result<
    ExecutionResult,
    ExecuteError,
>)
    ensures
        r matches Ok(result) ==> complete_spec(registry@, statement@.returning, reply@) == Ok::<
            ResultView,
            ExecuteFault,
        >(result@),
        r matches Err(e) ==> complete_spec(registry@, statement@.returning, reply@) == Err::<
            ResultView,
            ExecuteFault,
        >(e@),
{
    match reply {
        Reply::Failed(message) => Err(ExecuteError::Connection { message }),
        Reply::Affected(n) => match &statement.returning {
            None => Ok(ExecutionResult::AffectedRowCount(n)),
            Some(_) => Err(ExecuteError::UnexpectedReply),
        },
        Reply::Rows(rows) => match &statement.returning {
            None => Err(ExecuteError::UnexpectedReply),
            Some(shape) => match bind_rows(registry, &rows, shape) {
                Err(e) => Err(e),
                Ok(records) => Ok(ExecutionResult::RecordSet(records)),
            },
        },
    }
}

/// The single record of `result`: exactly one row is the contract.
pub fn fetch_one(result: ExecutionResult) -> (r: Result<Record, ExecuteError>)
    ensures
        r matches Ok(record) ==> fetch_one_spec(result@) == Ok::<RecordView, ExecuteFault>(
            record@,
        ),
        r matches Err(e) ==> fetch_one_spec(result@) == Err::<RecordView, ExecuteFault>(e@),
{
    match result {
        ExecutionResult::AffectedRowCount(_) => Err(ExecuteError::NoRowsReturned),
        ExecutionResult::RecordSet(mut records) => {
            let n = records.len();
            if n == 0 {
                Err(ExecuteError::NoRowsReturned)
            } else if n == 1 {
                let record = records.remove(0);
                Ok(record)
            } else {
                Err(ExecuteError::MultipleRowsReturned)
            }
        },
    }
}

/// The cardinality contract of `fetch_one`: no row is `NoRowsReturned`,
/// one row is that row's record, two rows or more are
/// `MultipleRowsReturned`.
pub proof fn lemma_fetch_one_cardinality(records: Seq<RecordView>)
    ensures
        records.len() == 0 ==> fetch_one_spec(ResultView::RecordSet(records)) == Err::<
            RecordView,
            ExecuteFault,
        >(ExecuteFault::NoRowsReturned),
        records.len() == 1 ==> fetch_one_spec(ResultView::RecordSet(records)) == Ok::<
            RecordView,
            ExecuteFault,
        >(records[0]),
        records.len() >= 2 ==> fetch_one_spec(ResultView::RecordSet(records)) == Err::<
            RecordView,
            ExecuteFault,
        >(ExecuteFault::MultipleRowsReturned),
{
}

} // verus!
