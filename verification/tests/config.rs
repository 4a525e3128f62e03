use lu_mod_tool::error::ModError;
use lu_mod_tool::manifest::Manifest;
use lu_mod_tool::mod_context::LookupFile;
use lu_mod_tool::mods::{ModPriority, Mods};
use lu_mod_tool::dict::Dict;
use lu_mod_tool::value::{JsonKind, ValueType};

#[test]
fn the_configuration_where_none_is_found() {
    assert_eq!(
        Mods::default(),
        Mods {
            version: String::new(),
            database: "cdclient.fdb".to_string(),
            sqlite: "CDServer.sqlite".to_string(),
            resource_folder: String::new(),
            priorities: vec![],
        }
    );
    let priority = ModPriority { directory: "a".to_string(), priority: 2 };
    assert_eq!(priority.priority, 2);
    assert_eq!(
        Manifest::default(),
        Manifest { name: "mod-name".to_string(), files: vec!["mod.json".to_string()] }
    );
    let mut ids = Dict::new();
    ids.insert("a".to_string(), 1);
    let file = LookupFile { ids };
    assert_eq!(file.ids.get("a"), Some(&1));
}

#[test]
fn messages() {
    assert_eq!(ModError::UnknownComponent("X".to_string()).message(), "Unknown component name X");
    assert_eq!(
        ModError::UnknownMissionTaskType("X".to_string()).message(),
        "Unknown mission task type: X"
    );
    assert_eq!(ModError::TableNotFound("T".to_string()).message(), "Table T not found");
    assert_eq!(
        ModError::TypeMismatch {
            column: "c".to_string(),
            declared: ValueType::BigInt,
            found: JsonKind::Array
        }
        .message(),
        "Column c is declared big integer and cannot hold an array"
    );
    assert_eq!(ModError::UnresolvedSymbol("s".to_string()).message(), "Unresolved symbol s");
    assert_eq!(ModError::DuplicateModId("s".to_string()).message(), "Duplicate mod id s");
    assert_eq!(ModError::SqlValueMissing.message(), "sql not set");
    assert_eq!(ModError::SqlValueWrongType.message(), "incorrect value type for sql");
    assert_eq!(ModError::NonIntegerPrimaryKey("T".to_string()).message(), "Non-integer id in T");
}
