use lu_mod_tool::dict::Dict;
use lu_mod_tool::error::ModError;
use lu_mod_tool::row::{coerce, make_row_fields};
use lu_mod_tool::schema::{find_table, get_table, Column, Database, Table};
use lu_mod_tool::value::{
    Field, JsonKind, JsonMember, JsonNumber, JsonValue, OutputValue, Real, ValueType,
};

fn column(name: &str, value_type: ValueType) -> Column {
    Column { name: name.to_string(), value_type }
}

fn integer(n: i64) -> JsonValue {
    JsonValue::Number(JsonNumber::Integer(n))
}

fn text(s: &str) -> JsonValue {
    JsonValue::String(s.to_string())
}

fn known(field: Field) -> Result<OutputValue, ModError> {
    Ok(OutputValue::Known(field))
}

fn mismatch(name: &str, declared: ValueType, found: JsonKind) -> Result<OutputValue, ModError> {
    Err(ModError::TypeMismatch { column: name.to_string(), declared, found })
}

#[test]
fn null_is_nothing_in_every_column() {
    for value_type in [
        ValueType::Nothing,
        ValueType::Integer,
        ValueType::Float,
        ValueType::Text,
        ValueType::Boolean,
        ValueType::BigInt,
        ValueType::VarChar,
    ] {
        assert_eq!(coerce(&column("c", value_type), &JsonValue::Null), known(Field::Nothing));
    }
}

#[test]
fn booleans() {
    let c = column("b", ValueType::Boolean);
    assert_eq!(coerce(&c, &JsonValue::Bool(true)), known(Field::Boolean(true)));
    assert_eq!(coerce(&c, &integer(1)), mismatch("b", ValueType::Boolean, JsonKind::Number));
    assert_eq!(coerce(&c, &text("true")), mismatch("b", ValueType::Boolean, JsonKind::String));
}

#[test]
fn integers() {
    let c = column("n", ValueType::Integer);
    assert_eq!(coerce(&c, &integer(-5)), known(Field::Integer(-5)));
    assert_eq!(coerce(&c, &integer(2147483647)), known(Field::Integer(2147483647)));
    assert_eq!(coerce(&c, &integer(-2147483648)), known(Field::Integer(-2147483648)));
    assert_eq!(coerce(&c, &integer(2147483648)), mismatch("n", ValueType::Integer, JsonKind::Number));
    assert_eq!(
        coerce(&c, &integer(-2147483649)),
        mismatch("n", ValueType::Integer, JsonKind::Number)
    );
    assert_eq!(coerce(&c, &text("other")), Ok(OutputValue::AwaitingId("other".to_string())));
    assert_eq!(
        coerce(&c, &JsonValue::Number(JsonNumber::Real(0x3fc00000))),
        mismatch("n", ValueType::Integer, JsonKind::Number)
    );
    assert_eq!(coerce(&c, &JsonValue::Bool(true)), mismatch("n", ValueType::Integer, JsonKind::Bool));
    assert_eq!(coerce(&c, &JsonValue::Array), mismatch("n", ValueType::Integer, JsonKind::Array));
}

#[test]
fn big_integers_and_reals() {
    let big = column("g", ValueType::BigInt);
    assert_eq!(coerce(&big, &integer(1 << 40)), known(Field::BigInt(1 << 40)));
    assert_eq!(coerce(&big, &text("x")), mismatch("g", ValueType::BigInt, JsonKind::String));
    assert_eq!(
        coerce(&big, &JsonValue::Number(JsonNumber::Real(0))),
        mismatch("g", ValueType::BigInt, JsonKind::Number)
    );
    let real = column("r", ValueType::Float);
    assert_eq!(
        coerce(&real, &JsonValue::Number(JsonNumber::Real(0x408ccccd))),
        known(Field::Float(Real::Bits(0x408ccccd)))
    );
    assert_eq!(coerce(&real, &integer(3)), known(Field::Float(Real::Whole(3))));
    assert_eq!(coerce(&real, &text("3")), mismatch("r", ValueType::Float, JsonKind::String));
}

#[test]
fn texts() {
    for value_type in [ValueType::Text, ValueType::VarChar] {
        let c = column("t", value_type);
        assert_eq!(coerce(&c, &text("hi")), known(Field::Text("hi".to_string())));
        assert_eq!(coerce(&c, &integer(1)), mismatch("t", value_type, JsonKind::Number));
        assert_eq!(
            coerce(
                &c,
                &JsonValue::Object(vec![JsonMember { name: "a".to_string(), text: None }])
            ),
            mismatch("t", value_type, JsonKind::Object)
        );
    }
    assert_eq!(coerce(&column("x", ValueType::Nothing), &text("hi")), known(Field::Nothing));
}

#[test]
fn kinds() {
    assert_eq!(JsonValue::Null.kind(), JsonKind::Null);
    assert_eq!(JsonValue::Bool(false).kind(), JsonKind::Bool);
    assert_eq!(integer(1).kind(), JsonKind::Number);
    assert_eq!(text("a").kind(), JsonKind::String);
    assert_eq!(JsonValue::Array.kind(), JsonKind::Array);
    assert_eq!(JsonValue::Object(vec![]).kind(), JsonKind::Object);
}

fn sample() -> Table {
    Table {
        name: "T".to_string(),
        columns: vec![
            column("id", ValueType::Integer),
            column("name", ValueType::Text),
            column("flag", ValueType::Boolean),
            column("other", ValueType::Integer),
        ],
        primary_keys: vec![],
        bucket_count: 1,
    }
}

#[test]
fn a_row_has_a_cell_for_each_column() {
    let mut values: Dict<OutputValue> = Dict::new();
    values.insert("name".to_string(), OutputValue::FromJson(text("ASSET:a.dds")));
    values.insert("id".to_string(), OutputValue::GenerateId);
    values.insert("other".to_string(), OutputValue::FromJson(text("friend")));
    values.insert("unknown".to_string(), OutputValue::FromJson(integer(1)));
    assert_eq!(
        make_row_fields(&sample(), &values),
        Ok(vec![
            OutputValue::GenerateId,
            OutputValue::Known(Field::Text("ASSET:a.dds".to_string())),
            OutputValue::Known(Field::Nothing),
            OutputValue::AwaitingId("friend".to_string()),
        ])
    );
}

#[test]
fn the_first_bad_column_is_refused() {
    let mut values: Dict<OutputValue> = Dict::new();
    values.insert("flag".to_string(), OutputValue::FromJson(integer(1)));
    values.insert("name".to_string(), OutputValue::FromJson(integer(2)));
    assert_eq!(
        make_row_fields(&sample(), &values),
        Err(ModError::TypeMismatch {
            column: "name".to_string(),
            declared: ValueType::Text,
            found: JsonKind::Number
        })
    );
}

#[test]
fn tables_by_name() {
    let mut second = sample();
    second.bucket_count = 2;
    let database = Database { tables: vec![sample(), second] };
    assert_eq!(find_table(&database, "T"), Some(0));
    assert_eq!(find_table(&database, "U"), None);
    assert_eq!(get_table(&database, "T").map(|t| t.bucket_count), Ok(1));
    assert_eq!(
        get_table(&database, "U").map(|t| t.bucket_count),
        Err(ModError::TableNotFound("U".to_string()))
    );
}
