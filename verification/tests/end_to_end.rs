use lu_mod_tool::apply::apply_mod;
use lu_mod_tool::component::{component_name_to_id, mod_type_to_table_name};
use lu_mod_tool::dict::Dict;
use lu_mod_tool::error::ModError;
use lu_mod_tool::locale::{Locale, Locales, Localization, Phrase, Phrases, Translation};
use lu_mod_tool::lu_mod::Mod;
use lu_mod_tool::mission::parse_mission_task_type;
use lu_mod_tool::mod_context::ModContext;
use lu_mod_tool::mods::Mods;
use lu_mod_tool::path::{as_icon_path, convert_path_specifier};
use lu_mod_tool::pipeline::{check_limits, compile_mods};
use lu_mod_tool::registry::ComponentLink;
use lu_mod_tool::relational::sql_statements;
use lu_mod_tool::schema::{Column, Database, Table};
use lu_mod_tool::sql::{apply_sql_mod, strip_transactions};
use lu_mod_tool::value::{Field, JsonNumber, JsonValue, OutputValue, ValueType};
use lu_mod_tool::writer::get_rows_for_insertion;

fn column(name: &str, value_type: ValueType) -> Column {
    Column { name: name.to_string(), value_type }
}

fn table(name: &str, columns: Vec<Column>, keys: Vec<i32>) -> Table {
    Table {
        name: name.to_string(),
        columns,
        primary_keys: keys.into_iter().map(Field::Integer).collect(),
        bucket_count: 4,
    }
}

fn stock() -> Database {
    Database {
        tables: vec![
            table(
                "Objects",
                vec![
                    column("id", ValueType::Integer),
                    column("name", ValueType::Text),
                    column("type", ValueType::Text),
                ],
                vec![2, 3, 4, 5],
            ),
            table(
                "ItemComponent",
                vec![column("id", ValueType::Integer), column("itemInfo", ValueType::Integer)],
                vec![1, 2],
            ),
            table(
                "RenderComponent",
                vec![column("id", ValueType::Integer), column("render_asset", ValueType::Text)],
                vec![],
            ),
            table("SkillComponent", vec![column("id", ValueType::Integer)], vec![1]),
            table(
                "ObjectSkills",
                vec![
                    column("objectTemplate", ValueType::Integer),
                    column("skillID", ValueType::Integer),
                    column("castOnType", ValueType::Integer),
                    column("AICombatWeight", ValueType::Integer),
                ],
                vec![7],
            ),
            table(
                "ComponentsRegistry",
                vec![
                    column("id", ValueType::Integer),
                    column("component_type", ValueType::Integer),
                    column("component_id", ValueType::Integer),
                ],
                vec![2, 2, 3],
            ),
        ],
    }
}

fn context(database: Database) -> ModContext {
    ModContext {
        configuration: Mods::default(),
        root: String::new(),
        database,
        localization: Localization {
            version: 0x3f800000,
            locales: Locales { count: 0, locale: vec![Locale { value: "en_US".to_string() }] },
            phrases: Phrases { count: 0, phrase: vec![] },
        },
        mods: vec![],
        server_sql: vec![],
        lookup: Dict::new(),
    }
}

fn new_mod(id: &str, kind: &str) -> Mod {
    let mut m = Mod::default();
    m.id = id.to_string();
    m.mod_type = kind.to_string();
    m.dir = "my-mod/".to_string();
    m
}

fn integer(n: i64) -> JsonValue {
    JsonValue::Number(JsonNumber::Integer(n))
}

#[test]
fn empty_object_takes_the_lowest_free_key() {
    let mut ctx = context(stock());
    let mut foo = new_mod("foo", "object");
    foo.locale.insert("en_US".to_string(), "Foo".to_string());
    assert_eq!(apply_mod(&mut ctx, foo), Ok(()));
    assert_eq!(ctx.mods.len(), 1);
    assert!(check_limits(&ctx));
    let registry = compile_mods(&mut ctx).unwrap();
    assert!(registry.is_empty());
    assert_eq!(ctx.lookup.get("foo"), Some(&1));
    let rows = get_rows_for_insertion(&ctx, &registry, "Objects").unwrap();
    assert_eq!(rows, vec![vec![Field::Integer(1), Field::Nothing, Field::Nothing]]);
    assert_eq!(
        ctx.localization.phrases.phrase,
        vec![Phrase {
            id: "Objects_1_name".to_string(),
            translations: vec![Translation {
                locale: "en_US".to_string(),
                value: "Foo".to_string()
            }],
        }]
    );
    assert_eq!(ctx.localization.phrases.count, 1);
    assert_eq!(ctx.localization.locales.count, 1);
    for name in ["ItemComponent", "RenderComponent", "SkillComponent", "ObjectSkills"] {
        assert!(get_rows_for_insertion(&ctx, &registry, name).unwrap().is_empty());
    }
}

#[test]
fn item_with_one_skill() {
    let mut ctx = context(stock());
    let mut sword = new_mod("sword", "item");
    sword.skills.push(integer(99));
    sword.locale.insert("en_US".to_string(), "Sword".to_string());
    assert_eq!(apply_mod(&mut ctx, sword), Ok(()));
    let registry = compile_mods(&mut ctx).unwrap();
    let object = *ctx.lookup.get("sword").unwrap();
    assert_eq!(object, 1);
    assert_eq!(
        get_rows_for_insertion(&ctx, &registry, "Objects").unwrap(),
        vec![vec![Field::Integer(1), Field::Nothing, Field::Text("Loot".to_string())]]
    );
    assert_eq!(
        get_rows_for_insertion(&ctx, &registry, "ItemComponent").unwrap(),
        vec![vec![Field::Integer(3), Field::Integer(0)]]
    );
    assert_eq!(
        get_rows_for_insertion(&ctx, &registry, "RenderComponent").unwrap(),
        vec![vec![Field::Integer(1), Field::Nothing]]
    );
    assert_eq!(
        get_rows_for_insertion(&ctx, &registry, "ObjectSkills").unwrap(),
        vec![vec![
            Field::Integer(object),
            Field::Integer(99),
            Field::Integer(0),
            Field::Integer(0)
        ]]
    );
    assert_eq!(
        registry,
        vec![
            ComponentLink { object: 1, component_type: 11, component: 3 },
            ComponentLink { object: 1, component_type: 2, component: 1 },
            ComponentLink { object: 1, component_type: 9, component: 2 },
        ]
    );
    assert_eq!(
        get_rows_for_insertion(&ctx, &registry, "ComponentsRegistry").unwrap(),
        vec![
            vec![Field::Integer(1), Field::Integer(11), Field::Integer(3)],
            vec![Field::Integer(1), Field::Integer(2), Field::Integer(1)],
            vec![Field::Integer(1), Field::Integer(9), Field::Integer(2)],
        ]
    );
}

#[test]
fn asset_paths() {
    let m = new_mod("a", "object");
    assert_eq!(convert_path_specifier(&m, "ASSET:icons/foo.dds"), "..\\mods\\my-mod\\icons\\foo.dds");
    assert_eq!(convert_path_specifier(&m, "ASSET:PHYSICS:a.hkx"), "..\\..\\mods\\my-mod\\a.hkx");
    assert_eq!(
        convert_path_specifier(&m, "ASSET:ICON:i.dds"),
        "..\\..\\textures\\..\\..\\mods\\my-mod\\i.dds"
    );
    assert_eq!(convert_path_specifier(&m, "plain/text"), "plain/text");
    assert_eq!(as_icon_path("ASSET:i.dds"), "ASSET:ICON:i.dds");
    assert_eq!(as_icon_path("ASSET:ICON:i.dds"), "ASSET:ICON:i.dds");
    assert_eq!(as_icon_path("i.dds"), "i.dds");
}

#[test]
fn mission_task_type_table() {
    assert_eq!(parse_mission_task_type("ItemCollection"), Ok(11));
    assert_eq!(
        parse_mission_task_type("Foobar"),
        Err(ModError::UnknownMissionTaskType("Foobar".to_string()))
    );
}

#[test]
fn sql_include() {
    let mut ctx = context(stock());
    let mut patch = new_mod("patch", "sql");
    patch.values.insert("sql".to_string(), JsonValue::String("INCLUDE:patch.sql".to_string()));
    assert_eq!(apply_sql_mod(&ctx, &mut patch), Ok(Some("my-mod/patch.sql".to_string())));
    patch.set_sql("BEGIN TRANSACTION; INSERT X; COMMIT;".to_string());
    assert_eq!(apply_sql_mod(&ctx, &mut patch), Ok(None));
    assert_eq!(apply_mod(&mut ctx, patch), Ok(()));
    assert_eq!(
        ctx.mods[0].values.get("sql"),
        Some(&JsonValue::String("BEGIN TRANSACTION; INSERT X; COMMIT;".to_string()))
    );
    assert!(ctx.mods[0].fields.is_empty());
    assert_eq!(sql_statements(&ctx.mods), Ok(vec![" INSERT X; ".to_string()]));
}

#[test]
fn nested_transactions_are_stripped() {
    assert_eq!(
        strip_transactions("BEGIN TRANSACTION;BEGIN TRANSACTION;INSERT X;COMMIT;COMMIT;"),
        "INSERT X;"
    );
    assert_eq!(strip_transactions("INSERT Y;"), "INSERT Y;");
}

#[test]
fn unresolved_reference() {
    let mut ctx = context(stock());
    let mut a = new_mod("A", "ObjectSkills");
    a.output_values
        .insert("skillID".to_string(), OutputValue::AwaitingId("missing".to_string()));
    a.values.insert("castOnType".to_string(), integer(0));
    assert_eq!(apply_mod(&mut ctx, a), Ok(()));
    assert_eq!(compile_mods(&mut ctx), Err(ModError::UnresolvedSymbol("missing".to_string())));
}

#[test]
fn component_names() {
    assert_eq!(component_name_to_id("ItemComponent"), Ok(11));
    assert_eq!(component_name_to_id("RenderComponent"), Ok(2));
    assert_eq!(component_name_to_id("Possesable"), Ok(108));
    assert_eq!(
        component_name_to_id("Nope"),
        Err(ModError::UnknownComponent("Nope".to_string()))
    );
    assert_eq!(mod_type_to_table_name("npc"), "Objects");
    assert_eq!(mod_type_to_table_name("mission"), "Missions");
    assert_eq!(mod_type_to_table_name("SimplePhysicsComponent"), "PhysicsComponent");
    assert_eq!(mod_type_to_table_name("Icons"), "Icons");
}

#[test]
fn rewriting_twice_is_rewriting_once() {
    let m = new_mod("a", "object");
    for text in [
        "plain",
        "",
        "ASSE",
        "asset:lower",
        "ASSET:icons/foo.dds",
        "ASSET:PHYSICS:a.hkx",
        "ASSET:ICON:i.dds",
        "ASSET:/rooted",
        "ASSET:ASSET:twice",
        "ASSET:",
    ] {
        let once = convert_path_specifier(&m, text);
        assert_eq!(convert_path_specifier(&m, &once), once);
    }
    assert_eq!(convert_path_specifier(&m, "ASSET:/rooted"), "\\rooted");
    assert_eq!(convert_path_specifier(&m, "ASSET:"), "..\\mods\\my-mod\\");
    let mut rooted = new_mod("b", "object");
    rooted.dir = "/abs".to_string();
    assert_eq!(convert_path_specifier(&rooted, "ASSET:x"), "\\abs\\x");
}

fn compiled_item() -> (ModContext, Vec<ComponentLink>) {
    let mut ctx = context(stock());
    let mut sword = new_mod("sword", "item");
    sword.skills.push(integer(99));
    sword.locale.insert("en_US".to_string(), "Sword".to_string());
    let mut foo = new_mod("foo", "object");
    foo.locale.insert("en_US".to_string(), "Foo".to_string());
    assert_eq!(apply_mod(&mut ctx, sword), Ok(()));
    assert_eq!(apply_mod(&mut ctx, foo), Ok(()));
    let registry = compile_mods(&mut ctx).unwrap();
    (ctx, registry)
}

#[test]
fn the_same_inputs_compile_alike() {
    let (a, registry_a) = compiled_item();
    let (b, registry_b) = compiled_item();
    assert_eq!(registry_a, registry_b);
    assert_eq!(a.lookup.len(), b.lookup.len());
    for i in 0..a.lookup.len() {
        assert_eq!(a.lookup.key_at(i), b.lookup.key_at(i));
        assert_eq!(a.lookup.value_at(i), b.lookup.value_at(i));
    }
    for name in ["Objects", "ItemComponent", "RenderComponent", "ObjectSkills", "ComponentsRegistry"] {
        assert_eq!(
            get_rows_for_insertion(&a, &registry_a, name),
            get_rows_for_insertion(&b, &registry_b, name)
        );
    }
    assert_eq!(a.localization, b.localization);
    assert_eq!(a.lookup.get("sword"), Some(&1));
    assert_eq!(a.lookup.get("foo"), Some(&6));
}
