//! The ways in which a set of mods can be refused.

use vstd::prelude::*;
use crate::text::joined;
use crate::value::{JsonKind, ValueType};

verus! {

#[derive(Debug, PartialEq, Eq)]
pub enum ModError {
    /// The name is not that of a component type.
    UnknownComponent(String),
    /// The name is not that of a kind of mission task.
    UnknownMissionTaskType(String),
    /// The stock database has no table of this name.
    TableNotFound(String),
    /// The value given for a column cannot be read as the column's type.
    TypeMismatch { column: String, declared: ValueType, found: JsonKind },
    /// A cell refers to a mod that no identifier was bound to.
    UnresolvedSymbol(String),
    /// Two mods carry the same identifier.
    DuplicateModId(String),
    /// An SQL mod without an `sql` value.
    SqlValueMissing,
    /// An SQL mod whose `sql` value is not a string.
    SqlValueWrongType,
    /// A row of the table has a primary key of a type that cannot be used:
    /// to give out keys every key must be an integer, and to place a row
    /// among the buckets its key must be an integer or a text.
    NonIntegerPrimaryKey(String),
}

pub enum ModErrorView {
    UnknownComponent(Seq<char>),
    UnknownMissionTaskType(Seq<char>),
    TableNotFound(Seq<char>),
    TypeMismatch { column: Seq<char>, declared: ValueType, found: JsonKind },
    UnresolvedSymbol(Seq<char>),
    DuplicateModId(Seq<char>),
    SqlValueMissing,
    SqlValueWrongType,
    NonIntegerPrimaryKey(Seq<char>),
}

impl View for ModError {
    type V = ModErrorView;

    open spec fn view(&self) -> ModErrorView {
        match self {
            ModError::UnknownComponent(s) => ModErrorView::UnknownComponent(s@),
            ModError::UnknownMissionTaskType(s) => ModErrorView::UnknownMissionTaskType(s@),
            ModError::TableNotFound(s) => ModErrorView::TableNotFound(s@),
            ModError::TypeMismatch { column, declared, found } => ModErrorView::TypeMismatch {
                column: column@,
                declared: *declared,
                found: *found,
            },
            ModError::UnresolvedSymbol(s) => ModErrorView::UnresolvedSymbol(s@),
            ModError::DuplicateModId(s) => ModErrorView::DuplicateModId(s@),
            ModError::SqlValueMissing => ModErrorView::SqlValueMissing,
            ModError::SqlValueWrongType => ModErrorView::SqlValueWrongType,
            ModError::NonIntegerPrimaryKey(s) => ModErrorView::NonIntegerPrimaryKey(s@),
        }
    }
}

/// The name of a declared type, as it is written in a message.
pub open spec fn type_word(value_type: ValueType) -> Seq<char> {
    match value_type {
        ValueType::Nothing => "nothing"@,
        ValueType::Integer => "integer"@,
        ValueType::Float => "float"@,
        ValueType::Text => "text"@,
        ValueType::Boolean => "boolean"@,
        ValueType::BigInt => "big integer"@,
        ValueType::VarChar => "variable text"@,
    }
}

/// The name of the shape of a value, as it is written in a message.
pub open spec fn kind_word(kind: JsonKind) -> Seq<char> {
    match kind {
        JsonKind::Null => "null"@,
        JsonKind::Bool => "a boolean"@,
        JsonKind::Number => "a number"@,
        JsonKind::String => "a string"@,
        JsonKind::Array => "an array"@,
        JsonKind::Object => "an object"@,
    }
}

/// The message of a refusal.
pub open spec fn description(error: ModErrorView) -> Seq<char> {
    match error {
        ModErrorView::UnknownComponent(name) => "Unknown component name "@ + name,
        ModErrorView::UnknownMissionTaskType(name) => "Unknown mission task type: "@ + name,
        ModErrorView::TableNotFound(name) => "Table "@ + name + " not found"@,
        ModErrorView::TypeMismatch { column, declared, found } => "Column "@ + column
            + " is declared "@ + type_word(declared) + " and cannot hold "@ + kind_word(found),
        ModErrorView::UnresolvedSymbol(name) => "Unresolved symbol "@ + name,
        ModErrorView::DuplicateModId(name) => "Duplicate mod id "@ + name,
        ModErrorView::SqlValueMissing => "sql not set"@,
        ModErrorView::SqlValueWrongType => "incorrect value type for sql"@,
        ModErrorView::NonIntegerPrimaryKey(name) => "Non-integer id in "@ + name,
    }
}

fn word_of_type(value_type: ValueType) -> (word: &'static str)
    ensures
        word@ == type_word(value_type),
{
    match value_type {
        ValueType::Nothing => "nothing",
        ValueType::Integer => "integer",
        ValueType::Float => "float",
        ValueType::Text => "text",
        ValueType::Boolean => "boolean",
        ValueType::BigInt => "big integer",
        ValueType::VarChar => "variable text",
    }
}

fn word_of_kind(kind: JsonKind) -> (word: &'static str)
    ensures
        word@ == kind_word(kind),
{
    match kind {
        JsonKind::Null => "null",
        JsonKind::Bool => "a boolean",
        JsonKind::Number => "a number",
        JsonKind::String => "a string",
        JsonKind::Array => "an array",
        JsonKind::Object => "an object",
    }
}

impl ModError {
    /// The message of the refusal.
    pub fn message(&self) -> (text: String)
        ensures
            text@ == description(self@),
    {
        match self {
            ModError::UnknownComponent(name) => joined("Unknown component name ", name.as_str()),
            ModError::UnknownMissionTaskType(name) => joined(
                "Unknown mission task type: ",
                name.as_str(),
            ),
            ModError::TableNotFound(name) => {
                let mut text = joined("Table ", name.as_str());
                text.append(" not found");
                text
            },
            ModError::TypeMismatch { column, declared, found } => {
                let mut text = joined("Column ", column.as_str());
                text.append(" is declared ");
                text.append(word_of_type(*declared));
                text.append(" and cannot hold ");
                text.append(word_of_kind(*found));
                text
            },
            ModError::UnresolvedSymbol(name) => joined("Unresolved symbol ", name.as_str()),
            ModError::DuplicateModId(name) => joined("Duplicate mod id ", name.as_str()),
            ModError::SqlValueMissing => String::from_str("sql not set"),
            ModError::SqlValueWrongType => String::from_str("incorrect value type for sql"),
            ModError::NonIntegerPrimaryKey(name) => joined("Non-integer id in ", name.as_str()),
        }
    }
}

} // verus!
