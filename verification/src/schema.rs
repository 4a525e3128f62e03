//! The stock database as the pipeline reads it: for each table its name, its
//! columns with their declared types, the primary key of each of its rows
//! and the number of its buckets.

use vstd::prelude::*;
use crate::error::{ModError, ModErrorView};
use crate::text::same_text;
use crate::value::{views, Field, FieldView, ValueType};

verus! {

pub struct Column {
    pub name: String,
    pub value_type: ValueType,
}

pub struct ColumnView {
    pub name: Seq<char>,
    pub value_type: ValueType,
}

impl View for Column {
    type V = ColumnView;

    open spec fn view(&self) -> ColumnView {
        ColumnView { name: self.name@, value_type: self.value_type }
    }
}

pub struct Table {
    pub name: String,
    pub columns: Vec<Column>,
    pub primary_keys: Vec<Field>,
    pub bucket_count: usize,
}

pub struct TableView {
    pub name: Seq<char>,
    pub columns: Seq<ColumnView>,
    pub primary_keys: Seq<FieldView>,
    pub bucket_count: usize,
}

impl View for Table {
    type V = TableView;

    open spec fn view(&self) -> TableView {
        TableView {
            name: self.name@,
            columns: views(self.columns@),
            primary_keys: views(self.primary_keys@),
            bucket_count: self.bucket_count,
        }
    }
}

pub struct Database {
    pub tables: Vec<Table>,
}

impl View for Database {
    type V = Seq<TableView>;

    open spec fn view(&self) -> Seq<TableView> {
        views(self.tables@)
    }
}

/// The position of the first table called `name`, if there is one.
pub open spec fn table_position(tables: Seq<TableView>, name: Seq<char>) -> Option<int> {
    if exists|i: int| is_first_named(tables, name, i) {
        Some(choose|i: int| is_first_named(tables, name, i))
    } else {
        None
    }
}

/// The table at `at` is called `name`, and none before it is.
pub open spec fn is_first_named(tables: Seq<TableView>, name: Seq<char>, at: int) -> bool {
    &&& 0 <= at < tables.len()
    &&& tables[at].name == name
    &&& forall|j: int| 0 <= j < at ==> (#[trigger] tables[j]).name != name
}

/// The first table called `name`, if there is one.
pub open spec fn table_named(tables: Seq<TableView>, name: Seq<char>) -> Option<TableView> {
    match table_position(tables, name) {
        Some(i) => Some(tables[i]),
        None => None,
    }
}

/// Where the first table called `name` stands.
pub fn find_table(database: &Database, name: &str) -> (at: Option<usize>)
    ensures
        match at {
            Some(i) => table_position(database@, name@) == Some(i as int) && i
                < database.tables@.len(),
            None => table_position(database@, name@).is_none(),
        },
{
    let mut i: usize = 0;
    while i < database.tables.len()
        invariant
            i <= database.tables@.len(),
            forall|j: int| 0 <= j < i ==> (#[trigger] database@[j]).name != name@,
        decreases database.tables.len() - i,
    {
        if same_text(database.tables[i].name.as_str(), name) {
            proof {
                assert(database@[i as int].name == name@);
                assert(is_first_named(database@, name@, i as int));
                let p = choose|p: int| is_first_named(database@, name@, p);
                if p < i {
                    assert(database@[p].name != name@);
                } else if i < p {
                    assert(database@[i as int].name != name@);
                }
            }
            return Some(i);
        }
        i += 1;
    }
    proof {
        assert forall|p: int| !is_first_named(database@, name@, p) by {
            if is_first_named(database@, name@, p) {
                assert(database@[p].name != name@);
            }
        }
    }
    None
}

/// The first table called `name`; without one the name is refused.
pub fn get_table<'a>(database: &'a Database, name: &str) -> (table: Result<&'a Table, ModError>)
    ensures
        match table_named(database@, name@) {
            Some(t) => table matches Ok(found) && found@ == t,
            None => table matches Err(e) && e@ == ModErrorView::TableNotFound(name@),
        },
{
    match find_table(database, name) {
        Some(i) => Ok(&database.tables[i]),
        None => Err(ModError::TableNotFound(String::from_str(name))),
    }
}

} // verus!
