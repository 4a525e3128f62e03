//! From the values of a mod to the row of a table: each column takes the
//! value written under its name, coerced by the column's declared type.

use vstd::prelude::*;
use crate::dict::{lookup, Dict};
use crate::error::{ModError, ModErrorView};
use crate::schema::{Column, ColumnView, Table};
use crate::value::{
    kind_of,
    lemma_views_push,
    views,
    Field,
    FieldView,
    JsonNumber,
    JsonValue,
    JsonView,
    OutputValue,
    OutputView,
    Real,
    ValueType,
};

verus! {

/// The refusal of `value` for `column`.
pub open spec fn mismatch(column: ColumnView, value: JsonView) -> ModErrorView {
    ModErrorView::TypeMismatch {
        column: column.name,
        declared: column.value_type,
        found: kind_of(value),
    }
}

/// What an untyped value is in a column. `null` is nothing in every column.
/// A column of booleans takes a boolean, a column of integers an integer
/// that fits in 32 bits or else a string, which then stands for the
/// identifier of the mod of that name; a column of big integers takes an
/// integer, a column of reals a number, a column of text a string. Anything
/// else is refused, and so is an integer too large for its column.
pub open spec fn coerced(column: ColumnView, value: JsonView) -> Result<OutputView, ModErrorView> {
    match value {
        JsonView::Null => Ok(OutputView::Known(FieldView::Nothing)),
        _ => match column.value_type {
            ValueType::Nothing => Ok(OutputView::Known(FieldView::Nothing)),
            ValueType::Boolean => match value {
                JsonView::Bool(b) => Ok(OutputView::Known(FieldView::Boolean(b))),
                _ => Err(mismatch(column, value)),
            },
            ValueType::Integer => match value {
                JsonView::Number(JsonNumber::Integer(i)) => if i32::MIN <= i <= i32::MAX {
                    Ok(OutputView::Known(FieldView::Integer(i as i32)))
                } else {
                    Err(mismatch(column, value))
                },
                JsonView::String(s) => Ok(OutputView::AwaitingId(s)),
                _ => Err(mismatch(column, value)),
            },
            ValueType::BigInt => match value {
                JsonView::Number(JsonNumber::Integer(i)) => Ok(
                    OutputView::Known(FieldView::BigInt(i)),
                ),
                _ => Err(mismatch(column, value)),
            },
            ValueType::Float => match value {
                JsonView::Number(JsonNumber::Integer(i)) => Ok(
                    OutputView::Known(FieldView::Float(Real::Whole(i))),
                ),
                JsonView::Number(JsonNumber::Real(bits)) => Ok(
                    OutputView::Known(FieldView::Float(Real::Bits(bits))),
                ),
                _ => Err(mismatch(column, value)),
            },
            ValueType::Text | ValueType::VarChar => match value {
                JsonView::String(s) => Ok(OutputView::Known(FieldView::Text(s))),
                _ => Err(mismatch(column, value)),
            },
        },
    }
}

/// The cell of `column` in the row made of `values`: nothing where no value
/// stands under the column's name, the coerced value where an untyped one
/// does, and any other value as it is.
pub open spec fn cell_for(column: ColumnView, values: Seq<(Seq<char>, OutputView)>) -> Result<
    OutputView,
    ModErrorView,
> {
    match lookup(values, column.name) {
        None => Ok(OutputView::Known(FieldView::Nothing)),
        Some(OutputView::FromJson(v)) => coerced(column, v),
        Some(other) => Ok(other),
    }
}

/// The row made of `values` for `columns`, or the refusal of the first
/// column whose value cannot be coerced.
pub open spec fn row_for(columns: Seq<ColumnView>, values: Seq<(Seq<char>, OutputView)>) -> Result<
    Seq<OutputView>,
    ModErrorView,
>
    decreases columns.len(),
{
    if columns.len() == 0 {
        Ok(Seq::empty())
    } else {
        match row_for(columns.drop_last(), values) {
            Err(e) => Err(e),
            Ok(row) => match cell_for(columns.last(), values) {
                Err(e) => Err(e),
                Ok(cell) => Ok(row.push(cell)),
            },
        }
    }
}

/// A refusal among the first columns is the refusal of the whole row.
pub proof fn lemma_row_refused(
    columns: Seq<ColumnView>,
    values: Seq<(Seq<char>, OutputView)>,
    n: int,
)
    requires
        0 <= n <= columns.len(),
        row_for(columns.take(n), values) is Err,
    ensures
        row_for(columns, values) == row_for(columns.take(n), values),
    decreases columns.len(),
{
    if n == columns.len() {
        assert(columns.take(n) == columns);
    } else {
        assert(columns.drop_last().take(n) == columns.take(n));
        lemma_row_refused(columns.drop_last(), values, n);
    }
}

/// A row has one cell for each column, and each cell is the one that its
/// column makes of the values.
pub proof fn lemma_row_cells(columns: Seq<ColumnView>, values: Seq<(Seq<char>, OutputView)>)
    requires
        row_for(columns, values) is Ok,
    ensures
        row_for(columns, values)->Ok_0.len() == columns.len(),
        forall|i: int|
            0 <= i < columns.len() ==> cell_for(#[trigger] columns[i], values) == Ok::<
                OutputView,
                ModErrorView,
            >(row_for(columns, values)->Ok_0[i]),
    decreases columns.len(),
{
    if columns.len() > 0 {
        lemma_row_cells(columns.drop_last(), values);
        assert forall|i: int| 0 <= i < columns.len() implies cell_for(
            #[trigger] columns[i],
            values,
        ) == Ok::<OutputView, ModErrorView>(row_for(columns, values)->Ok_0[i]) by {
            if i < columns.len() - 1 {
                assert(columns.drop_last()[i] == columns[i]);
            }
        }
    }
}

/// Coerces an untyped value by the declared type of its column.
pub fn coerce(column: &Column, value: &JsonValue) -> (out: Result<OutputValue, ModError>)
    ensures
        match coerced(column@, value@) {
            Ok(cell) => out matches Ok(v) && v@ == cell,
            Err(refusal) => out matches Err(e) && e@ == refusal,
        },
{
    let refusal = ModError::TypeMismatch {
        column: column.name.clone(),
        declared: column.value_type,
        found: value.kind(),
    };
    match value {
        JsonValue::Null => Ok(OutputValue::Known(Field::Nothing)),
        _ => match column.value_type {
            ValueType::Nothing => Ok(OutputValue::Known(Field::Nothing)),
            ValueType::Boolean => match value {
                JsonValue::Bool(b) => Ok(OutputValue::Known(Field::Boolean(*b))),
                _ => Err(refusal),
            },
            ValueType::Integer => match value {
                JsonValue::Number(JsonNumber::Integer(i)) => if -2147483648 <= *i && *i
                    <= 2147483647 {
                    Ok(OutputValue::Known(Field::Integer(*i as i32)))
                } else {
                    Err(refusal)
                },
                JsonValue::String(s) => Ok(OutputValue::AwaitingId(s.clone())),
                _ => Err(refusal),
            },
            ValueType::BigInt => match value {
                JsonValue::Number(JsonNumber::Integer(i)) => Ok(
                    OutputValue::Known(Field::BigInt(*i)),
                ),
                _ => Err(refusal),
            },
            ValueType::Float => match value {
                JsonValue::Number(JsonNumber::Integer(i)) => Ok(
                    OutputValue::Known(Field::Float(Real::Whole(*i))),
                ),
                JsonValue::Number(JsonNumber::Real(bits)) => Ok(
                    OutputValue::Known(Field::Float(Real::Bits(*bits))),
                ),
                _ => Err(refusal),
            },
            ValueType::Text | ValueType::VarChar => match value {
                JsonValue::String(s) => Ok(OutputValue::Known(Field::Text(s.clone()))),
                _ => Err(refusal),
            },
        },
    }
}

/// The row of `table` made of `values`.
pub fn make_row_fields(table: &Table, values: &Dict<OutputValue>) -> (row: Result<
    Vec<OutputValue>,
    ModError,
>)
    ensures
        match row_for(table@.columns, values@) {
            Ok(cells) => row matches Ok(v) && views(v@) == cells,
            Err(refusal) => row matches Err(e) && e@ == refusal,
        },
{
    let mut fields: Vec<OutputValue> = Vec::new();
    let mut i: usize = 0;
    assert(table@.columns.take(0) == Seq::<ColumnView>::empty());
    assert(views(fields@) =~= Seq::<OutputView>::empty());
    while i < table.columns.len()
        invariant
            i <= table.columns@.len(),
            row_for(table@.columns.take(i as int), values@) == Ok::<Seq<OutputView>, ModErrorView>(
                views(fields@),
            ),
        decreases table.columns.len() - i,
    {
        let column = &table.columns[i];
        proof {
            let next = table@.columns.take(i + 1);
            assert(next.drop_last() == table@.columns.take(i as int));
            assert(next.last() == column@);
        }
        let cell = match values.get(column.name.as_str()) {
            None => OutputValue::Known(Field::Nothing),
            Some(OutputValue::FromJson(value)) => match coerce(column, value) {
                Ok(cell) => cell,
                Err(e) => {
                    proof {
                        lemma_row_refused(table@.columns, values@, i + 1);
                    }
                    return Err(e);
                },
            },
            Some(other) => other.clone(),
        };
        proof {
            lemma_views_push(fields@, cell);
        }
        fields.push(cell);
        i += 1;
    }
    assert(table@.columns.take(table@.columns.len() as int) == table@.columns);
    Ok(fields)
}

} // verus!
