//! The row binder: decodes the columns that a record shape declares out of
//! a raw result row. A record comes out whole or not at all.

use crate::descriptor::DescriptorView;
use crate::error::DecodeError;
use crate::registry::{resolve_spec, Registry, RegistryError};
use crate::value::{wire_view, ScalarValue, ScalarView, Value, ValueView};
use vstd::prelude::*;

verus! {

/// One column of a result row as it came from the server: its name and its
/// raw value, which is nothing for a null.
#[derive(Debug, Clone, PartialEq, Eq)]
pub struct RawColumn {
    pub name: String,
    pub value: Option<Vec<u8>>,
}

/// A result row as it came from the server. Where two columns bear one
/// name, the first is the one that is found.
#[derive(Debug, Clone, PartialEq, Eq)]
pub struct Row {
    pub columns: Vec<RawColumn>,
}

/// Mathematical model of a row: names with raw values, in order.
pub type RowView = Seq<(Seq<char>, Option<Seq<u8>>)>;

impl View for Row {
    type V = RowView;

    open spec fn view(&self) -> RowView {
        self.columns@.map_values(|c: RawColumn| (c.name@, wire_view(c.value)))
    }
}

/// Mathematical model of a declared column.
pub struct ColumnView {
    pub name: Seq<char>,
    pub required: bool,
    pub target: Seq<char>,
}

/// What a record shape declares of one column: its name, whether the row
/// must hold a value for it, and the reference to the type that the value
/// is decoded as.
#[derive(Debug, Clone, PartialEq, Eq)]
pub struct ColumnShape {
    pub name: String,
    pub required: bool,
    pub target: String,
}

impl View for ColumnShape {
    type V = ColumnView;

    open spec fn view(&self) -> ColumnView {
        ColumnView { name: self.name@, required: self.required, target: self.target@ }
    }
}

/// The columns that a record is made of, in order.
#[derive(Debug, Clone, PartialEq, Eq)]
pub struct RecordShape {
    pub columns: Vec<ColumnShape>,
}

/// Mathematical model of a record shape.
pub type ShapeView = Seq<ColumnView>;

impl View for RecordShape {
    type V = ShapeView;

    open spec fn view(&self) -> ShapeView {
        self.columns@.map_values(|c: ColumnShape| c@)
    }
}

/// One decoded column of a record.
#[derive(Debug, Clone, PartialEq, Eq)]
pub struct Field {
    pub name: String,
    pub value: Value,
}

/// The decoded form of one result row: the declared columns in their
/// declared order, each with its value.
#[derive(Debug, Clone, PartialEq, Eq)]
pub struct Record {
    pub fields: Vec<Field>,
}

/// Mathematical model of a record: names with values, in order.
pub type RecordView = Seq<(Seq<char>, ValueView)>;

impl View for Record {
    type V = RecordView;

    open spec fn view(&self) -> RecordView {
        self.fields@.map_values(|f: Field| (f.name@, f.value@))
    }
}

/// The models of a sequence of records.
pub open spec fn record_views(records: Seq<Record>) -> Seq<RecordView> {
    records.map_values(|r: Record| r@)
}

/// The models of a sequence of rows.
pub open spec fn row_views(rows: Seq<Row>) -> Seq<RowView> {
    rows.map_values(|r: Row| r@)
}

/// Mathematical model of a binding failure.
pub enum BindFault {
    MissingColumn { column: Seq<char> },
    ColumnDecodeError { column: Seq<char>, cause: DecodeError },
    UnregisteredType { column: Seq<char> },
    UnregisteredElementType { column: Seq<char> },
}

/// Why a row could not be bound to a record shape.
#[derive(Debug, Clone, PartialEq, Eq)]
pub enum BindError {
    /// The row lacks a column that the shape requires.
    MissingColumn { column: String },
    /// The raw value of a column does not decode as the declared type.
    ColumnDecodeError { column: String, cause: DecodeError },
    /// The declared type of a column that the row has is not registered.
    UnregisteredType { column: String },
    /// The declared type of a column that the row has is an array type
    /// whose element type is not registered.
    UnregisteredElementType { column: String },
}

impl View for BindError {
    type V = BindFault;

    open spec fn view(&self) -> BindFault {
        match self {
            BindError::MissingColumn { column } => BindFault::MissingColumn { column: column@ },
            BindError::ColumnDecodeError { column, cause } => BindFault::ColumnDecodeError {
                column: column@,
                cause: *cause,
            },
            BindError::UnregisteredType { column } => BindFault::UnregisteredType {
                column: column@,
            },
            BindError::UnregisteredElementType { column } => BindFault::UnregisteredElementType {
                column: column@,
            },
        }
    }
}

/// The raw value of the first column of `row` that is called `name`.
pub open spec fn row_get(row: RowView, name: Seq<char>) -> Option<Option<Seq<u8>>>
    decreases row.len(),
{
    if row.len() == 0 {
        None
    } else if row[0].0 == name {
        Some(row[0].1)
    } else {
        row_get(row.drop_first(), name)
    }
}

/// The bytes of the column `name`, if the row has a column of that name
/// and the column is not null. A column without bytes is absent.
pub open spec fn present_value(row: RowView, name: Seq<char>) -> Option<Seq<u8>> {
    match row_get(row, name) {
        Some(Some(bytes)) => Some(bytes),
        _ => None,
    }
}

/// The value of one declared column. An absent column is an error if it is
/// required and the null if it is not. A present column is decoded as its
/// declared type.
pub open spec fn bind_column(
    types: Map<Seq<char>, DescriptorView>,
    row: RowView,
    column: ColumnView,
) -> Result<ValueView, BindFault> {
    match present_value(row, column.name) {
        None => if column.required {
            Err(BindFault::MissingColumn { column: column.name })
        } else {
            Ok(ValueView::Scalar(ScalarView::Null))
        },
        Some(bytes) => match resolve_spec(types, column.target) {
            Err(RegistryError::UnregisteredElementType) => Err(
                BindFault::UnregisteredElementType { column: column.name },
            ),
            Err(_) => Err(BindFault::UnregisteredType { column: column.name }),
            Ok(codec) => match codec.decode(Some(bytes)) {
                Ok(v) => Ok(v),
                Err(cause) => Err(BindFault::ColumnDecodeError { column: column.name, cause }),
            },
        },
    }
}

/// The record that a row gives under a shape: every declared column with
/// its value, or the failure of the first declared column that has one.
pub open spec fn bind_spec(
    types: Map<Seq<char>, DescriptorView>,
    row: RowView,
    shape: ShapeView,
) -> Result<RecordView, BindFault>
    decreases shape.len(),
{
    if shape.len() == 0 {
        Ok(Seq::empty())
    } else {
        match bind_spec(types, row, shape.drop_last()) {
            Err(e) => Err(e),
            Ok(front) => match bind_column(types, row, shape.last()) {
                Err(e) => Err(e),
                Ok(v) => Ok(front.push((shape.last().name, v))),
            },
        }
    }
}

/// The value of the first field of `record` that is called `name`.
pub open spec fn record_get(record: RecordView, name: Seq<char>) -> Option<ValueView>
    decreases record.len(),
{
    if record.len() == 0 {
        None
    } else if record[0].0 == name {
        Some(record[0].1)
    } else {
        record_get(record.drop_first(), name)
    }
}

impl Record {
    /// The value of the first field that is called `name`.
    pub fn get(&self, name: &str) -> (r: Option<&Value>)
        ensures
            r matches Some(v) ==> record_get(self@, name@) == Some(v@),
            r is None ==> record_get(self@, name@) is None,
    {
        let ghost whole = self@;
        let wanted = name.to_owned();
        let n = self.fields.len();
        let mut i: usize = 0;
        proof {
            assert(whole.subrange(0, n as int) =~= whole);
        }
        while i < n
            invariant
                n == self.fields@.len(),
                whole == self@,
                wanted@ == name@,
                i <= n,
                record_get(whole, name@) == record_get(whole.subrange(i as int, n as int), name@),
            decreases n - i,
        {
            let ghost rest = whole.subrange(i as int, n as int);
            proof {
                assert(rest[0] == whole[i as int]);
                assert(rest.drop_first() =~= whole.subrange(i + 1, n as int));
            }
            if self.fields[i].name == wanted {
                return Some(&self.fields[i].value);
            }
            i = i + 1;
        }
        None
    }
}

/// The raw value of the first column of `row` that is called `name`.
pub fn find_column<'a>(row: &'a Row, name: &String) -> (r: Option<&'a Option<Vec<u8>>>)
    ensures
        r matches Some(w) ==> row_get(row@, name@) == Some(wire_view(*w)),
        r is None ==> row_get(row@, name@) is None,
{
    let ghost whole = row@;
    let n = row.columns.len();
    let mut i: usize = 0;
    proof {
        assert(whole.subrange(0, n as int) =~= whole);
    }
    while i < n
        invariant
            n == row.columns@.len(),
            whole == row@,
            i <= n,
            row_get(whole, name@) == row_get(whole.subrange(i as int, n as int), name@),
        decreases n - i,
    {
        let ghost rest = whole.subrange(i as int, n as int);
        proof {
            assert(rest[0] == whole[i as int]);
            assert(rest.drop_first() =~= whole.subrange(i + 1, n as int));
        }
        if row.columns[i].name == *name {
            return Some(&row.columns[i].value);
        }
        i = i + 1;
    }
    None
}

/// Binds `row` to `shape`, decoding each declared column by the codec that
/// `registry` has for its declared type. Columns of the row that the shape
/// does not declare are passed over.
pub fn bind(registry: &Registry, row: &Row, shape: &RecordShape) -> (r: Result<Record, BindError>)
    ensures
        r matches Ok(record) ==> bind_spec(registry@, row@, shape@) == Ok::<RecordView, BindFault>(
            record@,
        ),
        r matches Err(e) ==> bind_spec(registry@, row@, shape@) == Err::<RecordView, BindFault>(
            e@,
        ),
{
    let ghost declared = shape@;
    let n = shape.columns.len();
    let mut fields: Vec<Field> = Vec::new();
    let mut i: usize = 0;
    proof {
        assert(fields@.map_values(|f: Field| (f.name@, f.value@)) =~= Seq::<
            (Seq<char>, ValueView),
        >::empty());
    }
    while i < n
        invariant
            n == shape.columns@.len(),
            declared == shape@,
            i <= n,
            bind_spec(registry@, row@, declared.subrange(0, i as int)) == Ok::<
                RecordView,
                BindFault,
            >(fields@.map_values(|f: Field| (f.name@, f.value@))),
        decreases n - i,
    {
        let ghost seen = fields@.map_values(|f: Field| (f.name@, f.value@));
        let ghost next = declared.subrange(0, i + 1);
        proof {
            assert(next.drop_last() =~= declared.subrange(0, i as int));
            assert(next.last() == shape.columns@[i as int]@);
        }
        let column = &shape.columns[i];
        let value = match find_column(row, &column.name) {
            None | Some(None) => {
                if column.required {
                    proof {
                        lemma_bind_fault(registry@, row@, declared, i as int);
                    }
                    return Err(BindError::MissingColumn { column: column.name.clone() });
                }
                Value::Scalar(ScalarValue::Null)
            },
            Some(wire) => match registry.resolve(column.target.as_str()) {
                Err(RegistryError::UnregisteredElementType) => {
                    proof {
                        lemma_bind_fault(registry@, row@, declared, i as int);
                    }
                    return Err(
                        BindError::UnregisteredElementType { column: column.name.clone() },
                    );
                },
                Err(_) => {
                    proof {
                        lemma_bind_fault(registry@, row@, declared, i as int);
                    }
                    return Err(BindError::UnregisteredType { column: column.name.clone() });
                },
                Ok(codec) => match codec.decode(wire) {
                    Err(cause) => {
                        proof {
                            lemma_bind_fault(registry@, row@, declared, i as int);
                        }
                        return Err(
                            BindError::ColumnDecodeError { column: column.name.clone(), cause },
                        );
                    },
                    Ok(v) => v,
                },
            },
        };
        let ghost added = (column.name@, value@);
        fields.push(Field { name: column.name.clone(), value });
        proof {
            assert(fields@.map_values(|f: Field| (f.name@, f.value@)) =~= seen.push(added));
        }
        i = i + 1;
    }
    proof {
        assert(declared.subrange(0, n as int) =~= declared);
    }
    Ok(Record { fields })
}

/// Where the declared columns in front of index `i` bind and the one at
/// `i` does not, the row fails with that column's failure.
pub proof fn lemma_bind_fault(
    types: Map<Seq<char>, DescriptorView>,
    row: RowView,
    shape: ShapeView,
    i: int,
)
    requires
        0 <= i < shape.len(),
        bind_spec(types, row, shape.subrange(0, i)) is Ok,
        bind_column(types, row, shape[i]) is Err,
    ensures
        bind_spec(types, row, shape) == Err::<RecordView, BindFault>(
            bind_column(types, row, shape[i])->Err_0,
        ),
    decreases shape.len(),
{
    if i == shape.len() - 1 {
        assert(shape.drop_last() =~= shape.subrange(0, i));
    } else {
        let front = shape.drop_last();
        assert(front.subrange(0, i) =~= shape.subrange(0, i));
        lemma_bind_fault(types, row, front, i);
    }
}

/// All or nothing: a record that comes out has every declared column, in
/// the declared order, each with the value that the column binds to.
pub proof fn lemma_bound_record_is_whole(
    types: Map<Seq<char>, DescriptorView>,
    row: RowView,
    shape: ShapeView,
)
    requires
        bind_spec(types, row, shape) is Ok,
    ensures
        bind_spec(types, row, shape)->Ok_0.len() == shape.len(),
        forall|i: int|
            0 <= i < shape.len() ==> {
                &&& (#[trigger] bind_spec(types, row, shape)->Ok_0[i]).0 == shape[i].name
                &&& bind_column(types, row, shape[i]) == Ok::<ValueView, BindFault>(
                    bind_spec(types, row, shape)->Ok_0[i].1,
                )
            },
    decreases shape.len(),
{
    if shape.len() > 0 {
        lemma_bound_record_is_whole(types, row, shape.drop_last());
    }
}

/// Whether no two declared columns bear one name.
pub open spec fn names_distinct(shape: ShapeView) -> bool {
    forall|i: int, j: int| 0 <= i < j < shape.len() ==> shape[i].name != shape[j].name
}

/// In a record whose fields in front of index `i` bear other names, the
/// name of the field at `i` finds that field.
pub proof fn lemma_record_get_at(record: RecordView, i: int)
    requires
        0 <= i < record.len(),
        forall|k: int| 0 <= k < i ==> (#[trigger] record[k]).0 != record[i].0,
    ensures
        record_get(record, record[i].0) == Some(record[i].1),
    decreases record.len(),
{
    if i > 0 {
        let rest = record.drop_first();
        assert(rest[i - 1] == record[i]);
        assert forall|k: int| 0 <= k < i - 1 implies (#[trigger] rest[k]).0 != rest[i - 1].0 by {
            assert(rest[k] == record[k + 1]);
        }
        assert(record[0].0 != record[i].0);
        lemma_record_get_at(rest, i - 1);
    }
}

/// Under a shape whose columns bear distinct names, the name of a declared
/// column finds in the record the value that the column was bound to.
pub proof fn lemma_record_get_bound(
    types: Map<Seq<char>, DescriptorView>,
    row: RowView,
    shape: ShapeView,
    i: int,
)
    requires
        bind_spec(types, row, shape) is Ok,
        names_distinct(shape),
        0 <= i < shape.len(),
    ensures
        record_get(bind_spec(types, row, shape)->Ok_0, shape[i].name) is Some,
        bind_column(types, row, shape[i]) == Ok::<ValueView, BindFault>(
            record_get(bind_spec(types, row, shape)->Ok_0, shape[i].name)->Some_0,
        ),
{
    let record = bind_spec(types, row, shape)->Ok_0;
    lemma_bound_record_is_whole(types, row, shape);
    assert(record[i].0 == shape[i].name);
    assert forall|k: int| 0 <= k < i implies (#[trigger] record[k]).0 != record[i].0 by {
        assert(record[k].0 == shape[k].name);
    }
    lemma_record_get_at(record, i);
}

/// A row in which a column that the shape requires is absent binds to no
/// record, and where the columns declared in front of it bind, the failure
/// names it as missing.
pub proof fn lemma_missing_required_column(
    types: Map<Seq<char>, DescriptorView>,
    row: RowView,
    shape: ShapeView,
    i: int,
)
    requires
        0 <= i < shape.len(),
        shape[i].required,
        present_value(row, shape[i].name) is None,
    ensures
        bind_spec(types, row, shape) is Err,
        bind_spec(types, row, shape.subrange(0, i)) is Ok ==> bind_spec(types, row, shape) == Err::<
            RecordView,
            BindFault,
        >(BindFault::MissingColumn { column: shape[i].name }),
    decreases shape.len(),
{
    if bind_spec(types, row, shape.subrange(0, i)) is Ok {
        lemma_bind_fault(types, row, shape, i);
    } else if bind_spec(types, row, shape) is Ok {
        lemma_bound_record_is_whole(types, row, shape);
        let record = bind_spec(types, row, shape)->Ok_0;
        assert(record[i].0 == shape[i].name);
        assert(bind_column(types, row, shape[i]) is Ok);
    }
}

/// A column of another name does not change what a name finds in a row.
pub proof fn lemma_row_get_insert(
    row: RowView,
    at: int,
    extra: (Seq<char>, Option<Seq<u8>>),
    name: Seq<char>,
)
    requires
        0 <= at <= row.len(),
        extra.0 != name,
    ensures
        row_get(row.insert(at, extra), name) == row_get(row, name),
    decreases row.len(),
{
    let wider = row.insert(at, extra);
    if at == 0 {
        assert(wider.drop_first() =~= row);
    } else {
        assert(wider[0] == row[0]);
        assert(wider.drop_first() =~= row.drop_first().insert(at - 1, extra));
        lemma_row_get_insert(row.drop_first(), at - 1, extra, name);
    }
}

/// Columns that the shape does not declare are ignored: a row with one
/// more column, of a name that no declared column bears, binds to the same
/// record or fails with the same failure.
pub proof fn lemma_extra_column_ignored(
    types: Map<Seq<char>, DescriptorView>,
    row: RowView,
    shape: ShapeView,
    at: int,
    extra: (Seq<char>, Option<Seq<u8>>),
)
    requires
        0 <= at <= row.len(),
        forall|i: int| 0 <= i < shape.len() ==> (#[trigger] shape[i]).name != extra.0,
    ensures
        bind_spec(types, row.insert(at, extra), shape) == bind_spec(types, row, shape),
    decreases shape.len(),
{
    if shape.len() > 0 {
        let front = shape.drop_last();
        assert forall|i: int| 0 <= i < front.len() implies (#[trigger] front[i]).name
            != extra.0 by {
            assert(front[i] == shape[i]);
        }
        lemma_extra_column_ignored(types, row, front, at, extra);
        assert(shape.last() == shape[shape.len() - 1]);
        lemma_row_get_insert(row, at, extra, shape.last().name);
    }
}

} // verus!
