//! The statements that build the relational output: one table for each
//! table of the database, one row for each row, and then the statements of
//! the SQL mods.

use vstd::prelude::*;
use crate::dict::lookup;
use crate::error::{ModError, ModErrorView};
use crate::lu_mod::{Mod, ModView};
use crate::schema::{ColumnView, Table, TableView};
use crate::sql::{strip_transactions, without_transactions};
use crate::text::{decimal, decimal_of_index, same_text};
use crate::value::{lemma_views_push, views, JsonValue, JsonView, ValueType};

verus! {

/// The name of a declared type in the relational output.
pub open spec fn sqlite_type_name(value_type: ValueType) -> Seq<char> {
    match value_type {
        ValueType::Nothing => "BLOB_NONE"@,
        ValueType::Integer => "INT32"@,
        ValueType::Float => "REAL"@,
        ValueType::Text => "TEXT4"@,
        ValueType::Boolean => "INT_BOOL"@,
        ValueType::BigInt => "INT64"@,
        ValueType::VarChar => "TEXT_XML"@,
    }
}

/// `assembly_fdb::value::ValueType::to_sqlite_type`: the name under which a
/// type of the table format is declared in the relational output. The
/// contract gives the name for each of the seven types.
#[verifier::external_body]
fn sqlite_type(value_type: ValueType) -> (name: &'static str)
    ensures
        name@ == sqlite_type_name(value_type),
{
    let outside = match value_type {
        ValueType::Nothing => assembly_fdb::value::ValueType::Nothing,
        ValueType::Integer => assembly_fdb::value::ValueType::Integer,
        ValueType::Float => assembly_fdb::value::ValueType::Float,
        ValueType::Text => assembly_fdb::value::ValueType::Text,
        ValueType::Boolean => assembly_fdb::value::ValueType::Boolean,
        ValueType::BigInt => assembly_fdb::value::ValueType::BigInt,
        ValueType::VarChar => assembly_fdb::value::ValueType::VarChar,
    };
    outside.to_sqlite_type()
}

/// The declarations of the first `n` columns, one to a line.
pub open spec fn column_declarations(columns: Seq<ColumnView>, n: int) -> Seq<char>
    decreases n,
{
    if n <= 0 {
        Seq::empty()
    } else {
        column_declarations(columns, n - 1) + (if n > 1 {
            ",\n"@
        } else {
            Seq::empty()
        }) + "    ["@ + columns[n - 1].name + "] "@ + sqlite_type_name(columns[n - 1].value_type)
    }
}

/// The statement that creates the table.
pub open spec fn creation(table: TableView) -> Seq<char> {
    "CREATE TABLE IF NOT EXISTS \""@ + table.name + "\"\n(\n"@ + column_declarations(
        table.columns,
        table.columns.len() as int,
    ) + ");"@
}

/// The names of the first `n` columns, in brackets.
pub open spec fn column_names(columns: Seq<ColumnView>, n: int) -> Seq<char>
    decreases n,
{
    if n <= 0 {
        Seq::empty()
    } else {
        column_names(columns, n - 1) + (if n > 1 {
            ", "@
        } else {
            Seq::empty()
        }) + "["@ + columns[n - 1].name + "]"@
    }
}

/// The places of the parameters from the second to the `n`th.
pub open spec fn parameters(n: int) -> Seq<char>
    decreases n,
{
    if n <= 1 {
        Seq::empty()
    } else {
        parameters(n - 1) + ", ?"@ + decimal(n)
    }
}

/// The statement that inserts one row into the table.
pub open spec fn insertion(table: TableView) -> Seq<char> {
    "INSERT INTO \""@ + table.name + "\" ("@ + column_names(
        table.columns,
        table.columns.len() as int,
    ) + ") VALUES (?1"@ + parameters(table.columns.len() as int) + ");"@
}

/// The statement that creates `table` in the relational output.
pub fn create_table_query(table: &Table) -> (query: String)
    ensures
        query@ == creation(table@),
{
    let mut query = String::from_str("CREATE TABLE IF NOT EXISTS \"");
    query.append(table.name.as_str());
    query.append("\"\n(\n");
    let ghost head = query@;
    let mut i: usize = 0;
    assert(head + column_declarations(table@.columns, 0) == head);
    while i < table.columns.len()
        invariant
            i <= table.columns@.len(),
            query@ == head + column_declarations(table@.columns, i as int),
        decreases table.columns.len() - i,
    {
        let column = &table.columns[i];
        assert(table@.columns[i as int] == column@);
        let ghost before = query@;
        if i > 0 {
            query.append(",\n");
        }
        query.append("    [");
        query.append(column.name.as_str());
        query.append("] ");
        query.append(sqlite_type(column.value_type));
        proof {
            let sep = if i > 0 {
                ",\n"@
            } else {
                Seq::<char>::empty()
            };
            assert(query@ == before + sep + "    ["@ + column@.name + "] "@ + sqlite_type_name(
                column@.value_type,
            ));
            assert(query@ == head + column_declarations(table@.columns, i + 1));
        }
        i += 1;
    }
    query.append(");");
    query
}

/// The statement that inserts one row into `table`.
pub fn insert_query(table: &Table) -> (query: String)
    ensures
        query@ == insertion(table@),
{
    let mut query = String::from_str("INSERT INTO \"");
    query.append(table.name.as_str());
    query.append("\" (");
    let ghost head = query@;
    let mut i: usize = 0;
    assert(head + column_names(table@.columns, 0) == head);
    while i < table.columns.len()
        invariant
            i <= table.columns@.len(),
            query@ == head + column_names(table@.columns, i as int),
        decreases table.columns.len() - i,
    {
        let column = &table.columns[i];
        assert(table@.columns[i as int] == column@);
        let ghost before = query@;
        if i > 0 {
            query.append(", ");
        }
        query.append("[");
        query.append(column.name.as_str());
        query.append("]");
        proof {
            let sep = if i > 0 {
                ", "@
            } else {
                Seq::<char>::empty()
            };
            assert(query@ == before + sep + "["@ + column@.name + "]"@);
            assert(query@ == head + column_names(table@.columns, i + 1));
        }
        i += 1;
    }
    query.append(") VALUES (?1");
    let ghost middle = query@;
    let mut k: usize = 1;
    assert(middle + parameters(1) == middle);
    while k < table.columns.len()
        invariant
            1 <= k,
            k <= table.columns@.len() || (table.columns@.len() == 0 && k == 1),
            query@ == middle + parameters(k as int),
        decreases table.columns.len() - k,
    {
        k += 1;
        let ghost before = query@;
        query.append(", ?");
        query.append(decimal_of_index(k).as_str());
        proof {
            assert(query@ == before + ", ?"@ + decimal(k as int));
            assert(query@ == middle + parameters(k as int));
        }
    }
    proof {
        if table.columns@.len() == 0 {
            assert(parameters(0) == parameters(1));
        }
    }
    query.append(");");
    query
}

/// The statements of the SQL mods among the first `n` mods, each without
/// the marks of a transaction. An SQL mod without statements is refused.
pub open spec fn statements(mods: Seq<ModView>, n: int) -> Result<Seq<Seq<char>>, ModErrorView>
    decreases n,
{
    if n <= 0 {
        Ok(Seq::empty())
    } else {
        match statements(mods, n - 1) {
            Err(e) => Err(e),
            Ok(before) => if mods[n - 1].mod_type == "sql"@ {
                match lookup(mods[n - 1].values, "sql"@) {
                    None => Err(ModErrorView::SqlValueMissing),
                    Some(JsonView::String(s)) => Ok(before.push(without_transactions(s))),
                    Some(_) => Err(ModErrorView::SqlValueWrongType),
                }
            } else {
                Ok(before)
            },
        }
    }
}

/// A refusal among the first mods is the refusal of them all.
pub proof fn lemma_statements_refused(mods: Seq<ModView>, n: int, len: int)
    requires
        0 <= n <= len,
        statements(mods, n) is Err,
    ensures
        statements(mods, len) == statements(mods, n),
    decreases len,
{
    if n < len {
        lemma_statements_refused(mods, n, len - 1);
    }
}

/// The statements of the SQL mods, as they are run after the rows are
/// written.
pub fn sql_statements(mods: &Vec<Mod>) -> (out: Result<Vec<String>, ModError>)
    ensures
        match statements(views(mods@), mods@.len() as int) {
            Ok(s) => out matches Ok(v) && views(v@) == s,
            Err(e) => out matches Err(x) && x@ == e,
        },
{
    let mut out: Vec<String> = Vec::new();
    let mut i: usize = 0;
    assert(views(out@) =~= Seq::<Seq<char>>::empty());
    while i < mods.len()
        invariant
            i <= mods@.len(),
            statements(views(mods@), i as int) == Ok::<Seq<Seq<char>>, ModErrorView>(views(out@)),
        decreases mods.len() - i,
    {
        assert(views(mods@)[i as int] == mods@[i as int]@);
        if same_text(mods[i].mod_type.as_str(), "sql") {
            match mods[i].values.get("sql") {
                Some(JsonValue::String(s)) => {
                    let stripped = strip_transactions(s.as_str());
                    proof {
                        lemma_views_push(out@, stripped);
                    }
                    out.push(stripped);
                },
                Some(_) => {
                    proof {
                        lemma_statements_refused(views(mods@), i + 1, mods@.len() as int);
                    }
                    return Err(ModError::SqlValueWrongType);
                },
                None => {
                    proof {
                        lemma_statements_refused(views(mods@), i + 1, mods@.len() as int);
                    }
                    return Err(ModError::SqlValueMissing);
                },
            }
        }
        i += 1;
    }
    Ok(out)
}

} // verus!
