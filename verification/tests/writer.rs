use lu_mod_tool::error::ModError;
use lu_mod_tool::lu_mod::Mod;
use lu_mod_tool::relational::{create_table_query, insert_query, sql_statements};
use lu_mod_tool::schema::{Column, Table};
use lu_mod_tool::value::{Field, JsonValue, Real, ValueType};
use lu_mod_tool::writer::{bucket_count, primary_key_slot, slot_of, MAX_BUCKETS};

#[test]
fn buckets_come_in_powers_of_two() {
    assert_eq!(bucket_count(0, 0), Some(0));
    assert_eq!(bucket_count(1, 0), Some(1));
    assert_eq!(bucket_count(0, 1), Some(1));
    assert_eq!(bucket_count(1, 1), Some(2));
    assert_eq!(bucket_count(2, 1), Some(4));
    assert_eq!(bucket_count(4, 0), Some(4));
    assert_eq!(bucket_count(4, 1), Some(8));
    assert_eq!(bucket_count(1000, 24), Some(1024));
    assert_eq!(bucket_count(1000, 25), Some(2048));
    assert_eq!(bucket_count(MAX_BUCKETS, 0), Some(MAX_BUCKETS));
    assert_eq!(bucket_count(MAX_BUCKETS - 1, 1), Some(0x8000_0000));
    assert_eq!(bucket_count(MAX_BUCKETS, 1), None);
    assert_eq!(bucket_count(usize::MAX, usize::MAX), None);
}

#[test]
fn slots_of_numbers() {
    assert_eq!(slot_of(0, 4), 0);
    assert_eq!(slot_of(5, 4), 1);
    assert_eq!(slot_of(8, 4), 0);
    assert_eq!(slot_of(-7, 4), 1);
    assert_eq!(slot_of(-8, 4), 0);
    assert_eq!(slot_of(-1, 1024), 1023);
    assert_eq!(slot_of(i64::MIN, 1024), 0);
    assert_eq!(slot_of(i64::MIN, 3), 1);
    assert_eq!(slot_of(i64::MAX, 7), 0);
    assert_eq!(slot_of(17, 1), 0);
}

#[test]
fn slots_of_keys() {
    assert_eq!(primary_key_slot("T", &Field::Integer(13), 8), Ok(5));
    assert_eq!(primary_key_slot("T", &Field::Integer(-2147483648), 1024), Ok(0));
    assert_eq!(primary_key_slot("T", &Field::BigInt(1 << 40), 1024), Ok(0));
    assert_eq!(primary_key_slot("T", &Field::BigInt((1 << 40) + 3), 1024), Ok(3));
    for key in [Field::Nothing, Field::Boolean(true), Field::Float(Real::Bits(0))] {
        assert_eq!(
            primary_key_slot("T", &key, 8),
            Err(ModError::NonIntegerPrimaryKey("T".to_string()))
        );
    }
}

#[test]
fn a_text_is_placed_by_its_hash() {
    assert_eq!(primary_key_slot("T", &Field::Text("Hello World!".to_string()), 1024), Ok(60));
    assert_eq!(primary_key_slot("T", &Field::Text("Hello World!".to_string()), 7), Ok(6));
    assert_eq!(primary_key_slot("T", &Field::Text("pirateDay".to_string()), 16), Ok(3));
    assert_eq!(primary_key_slot("T", &Field::Text(String::new()), 16), Ok(0));
    for text in ["a", "ab", "abc", "abcd", "héllo"] {
        let hash = sfhash::digest(text.as_bytes()) as usize;
        assert_eq!(primary_key_slot("T", &Field::Text(text.to_string()), 64), Ok(hash % 64));
    }
}

fn column(name: &str, value_type: ValueType) -> Column {
    Column { name: name.to_string(), value_type }
}

fn sample() -> Table {
    Table {
        name: "Things".to_string(),
        columns: vec![
            column("id", ValueType::Integer),
            column("name", ValueType::Text),
            column("size", ValueType::Float),
            column("on", ValueType::Boolean),
            column("big", ValueType::BigInt),
            column("xml", ValueType::VarChar),
            column("none", ValueType::Nothing),
        ],
        primary_keys: vec![],
        bucket_count: 0,
    }
}

#[test]
fn the_statement_that_creates_a_table() {
    assert_eq!(
        create_table_query(&sample()),
        "CREATE TABLE IF NOT EXISTS \"Things\"\n(\n    [id] INT32,\n    [name] TEXT4,\n    \
         [size] REAL,\n    [on] INT_BOOL,\n    [big] INT64,\n    [xml] TEXT_XML,\n    [none] \
         BLOB_NONE);"
    );
    let mut one = sample();
    one.columns.truncate(1);
    assert_eq!(create_table_query(&one), "CREATE TABLE IF NOT EXISTS \"Things\"\n(\n    [id] INT32);");
    one.columns.clear();
    assert_eq!(create_table_query(&one), "CREATE TABLE IF NOT EXISTS \"Things\"\n(\n);");
}

#[test]
fn the_statement_that_inserts_a_row() {
    assert_eq!(
        insert_query(&sample()),
        "INSERT INTO \"Things\" ([id], [name], [size], [on], [big], [xml], [none]) VALUES (?1, \
         ?2, ?3, ?4, ?5, ?6, ?7);"
    );
    let mut few = sample();
    few.columns.truncate(2);
    assert_eq!(insert_query(&few), "INSERT INTO \"Things\" ([id], [name]) VALUES (?1, ?2);");
    few.columns.truncate(1);
    assert_eq!(insert_query(&few), "INSERT INTO \"Things\" ([id]) VALUES (?1);");
    few.columns.clear();
    assert_eq!(insert_query(&few), "INSERT INTO \"Things\" () VALUES (?1);");
    let mut many = sample();
    for i in 0..5 {
        many.columns.push(column(&format!("c{}", i), ValueType::Integer));
    }
    assert!(insert_query(&many).ends_with("?9, ?10, ?11, ?12);"));
}

fn sql(id: &str, text: &str) -> Mod {
    let mut m = Mod::default();
    m.id = id.to_string();
    m.mod_type = "sql".to_string();
    m.values.insert("sql".to_string(), JsonValue::String(text.to_string()));
    m
}

#[test]
fn statements_of_the_mods() {
    let mut other = Mod::default();
    other.mod_type = "object".to_string();
    let mods = vec![
        sql("a", "BEGIN TRANSACTION;UPDATE T SET x = 1;COMMIT;"),
        other,
        sql("b", "DELETE FROM T;"),
    ];
    assert_eq!(
        sql_statements(&mods),
        Ok(vec!["UPDATE T SET x = 1;".to_string(), "DELETE FROM T;".to_string()])
    );
    let mut missing = Mod::default();
    missing.mod_type = "sql".to_string();
    assert_eq!(sql_statements(&vec![missing]), Err(ModError::SqlValueMissing));
    let mut wrong = sql("c", "");
    wrong.values.insert("sql".to_string(), JsonValue::Bool(true));
    assert_eq!(sql_statements(&vec![wrong]), Err(ModError::SqlValueWrongType));
}
