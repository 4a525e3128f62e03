use lu_mod_tool::apply::apply_mod;
use lu_mod_tool::dict::Dict;
use lu_mod_tool::error::ModError;
use lu_mod_tool::locale::{Locale, Locales, Localization, Phrase, Phrases, Translation};
use lu_mod_tool::lu_mod::Mod;
use lu_mod_tool::mod_context::ModContext;
use lu_mod_tool::mods::Mods;
use lu_mod_tool::phrases::{fix_locale, fix_phrase};
use lu_mod_tool::pipeline::{check_limits, compile_mods};
use lu_mod_tool::references::{check_unique_ids, resolve_cell, resolve_references};
use lu_mod_tool::registry::{build_registry, find_mod, ComponentLink};
use lu_mod_tool::resolve::{allocate_ids, asks_for_id};
use lu_mod_tool::schema::{Column, Database, Table};
use lu_mod_tool::value::{Field, JsonKind, JsonNumber, JsonValue, OutputValue, ValueType};
use lu_mod_tool::writer::{get_mods_for_table, get_rows_for_insertion, typed_row};

fn column(name: &str, value_type: ValueType) -> Column {
    Column { name: name.to_string(), value_type }
}

fn table(name: &str, columns: Vec<Column>, keys: Vec<Field>) -> Table {
    Table { name: name.to_string(), columns, primary_keys: keys, bucket_count: 1 }
}

fn numbers(keys: &[i32]) -> Vec<Field> {
    keys.iter().map(|k| Field::Integer(*k)).collect()
}

fn stock() -> Database {
    Database {
        tables: vec![
            table(
                "Objects",
                vec![column("id", ValueType::Integer), column("name", ValueType::Text)],
                numbers(&[1, 3]),
            ),
            table(
                "RenderComponent",
                vec![column("id", ValueType::Integer), column("icon", ValueType::Text)],
                numbers(&[2]),
            ),
            table(
                "ItemComponent",
                vec![column("id", ValueType::Integer), column("owner", ValueType::Integer)],
                numbers(&[]),
            ),
            table(
                "Words",
                vec![column("word", ValueType::Text), column("id", ValueType::Integer)],
                vec![Field::Text("a".to_string())],
            ),
        ],
    }
}

fn context(database: Database) -> ModContext {
    ModContext {
        configuration: Mods::default(),
        root: String::new(),
        database,
        localization: Localization {
            version: 0,
            locales: Locales { count: 7, locale: vec![Locale { value: "en_US".to_string() }] },
            phrases: Phrases {
                count: 9,
                phrase: vec![Phrase { id: "Old".to_string(), translations: vec![] }],
            },
        },
        mods: vec![],
        server_sql: vec![],
        lookup: Dict::new(),
    }
}

fn new_mod(id: &str, kind: &str) -> Mod {
    let mut m = Mod::default();
    m.id = id.to_string();
    m.mod_type = kind.to_string();
    m.dir = "pack".to_string();
    m
}

fn placed(id: &str, kind: &str, fields: Vec<OutputValue>) -> Mod {
    let mut m = new_mod(id, kind);
    m.fields = fields;
    m
}

fn known(field: Field) -> OutputValue {
    OutputValue::Known(field)
}

fn awaiting(name: &str) -> OutputValue {
    OutputValue::AwaitingId(name.to_string())
}

#[test]
fn keys_are_given_table_by_table_in_the_order_of_the_buffer() {
    let mut ctx = context(stock());
    ctx.mods = vec![
        placed("r1", "RenderComponent", vec![OutputValue::GenerateId]),
        placed("a", "object", vec![OutputValue::GenerateId]),
        placed("skip", "object", vec![known(Field::Integer(50))]),
        placed("b", "item", vec![OutputValue::GenerateId]),
        placed("r2", "RenderComponent", vec![OutputValue::GenerateId]),
        placed("c", "npc", vec![OutputValue::GenerateId]),
        placed("none", "Nowhere", vec![]),
    ];
    assert!(asks_for_id(&ctx.mods[0]));
    assert!(!asks_for_id(&ctx.mods[2]));
    assert!(!asks_for_id(&ctx.mods[6]));
    assert_eq!(allocate_ids(&mut ctx), Ok(()));
    assert_eq!(ctx.lookup.get("a"), Some(&2));
    assert_eq!(ctx.lookup.get("b"), Some(&4));
    assert_eq!(ctx.lookup.get("c"), Some(&5));
    assert_eq!(ctx.lookup.get("r1"), Some(&1));
    assert_eq!(ctx.lookup.get("r2"), Some(&3));
    assert_eq!(ctx.lookup.get("skip"), None);
    assert_eq!(ctx.lookup.len(), 5);
    assert_eq!(ctx.lookup.key_at(0), "a");
    assert_eq!(ctx.lookup.key_at(3), "r1");
}

#[test]
fn a_table_that_is_not_there_is_refused() {
    let mut ctx = context(stock());
    ctx.mods = vec![placed("x", "Nowhere", vec![OutputValue::GenerateId])];
    assert_eq!(allocate_ids(&mut ctx), Err(ModError::TableNotFound("Nowhere".to_string())));
    let mut ctx = context(stock());
    ctx.mods = vec![placed("w", "Words", vec![OutputValue::GenerateId])];
    assert_eq!(allocate_ids(&mut ctx), Err(ModError::NonIntegerPrimaryKey("Words".to_string())));
}

#[test]
fn symbols_must_differ() {
    let mods = vec![new_mod("a", "object"), new_mod("b", "object"), new_mod("c", "item")];
    assert_eq!(check_unique_ids(&mods), Ok(()));
    let mods = vec![
        new_mod("a", "object"),
        new_mod("b", "object"),
        new_mod("b", "item"),
        new_mod("a", "item"),
    ];
    assert_eq!(check_unique_ids(&mods), Err(ModError::DuplicateModId("b".to_string())));
    let mut ctx = context(stock());
    ctx.mods = mods;
    assert_eq!(compile_mods(&mut ctx), Err(ModError::DuplicateModId("b".to_string())));
    assert_eq!(find_mod(&ctx.mods, "a").map(|m| m.mod_type.as_str()), Some("object"));
    assert!(find_mod(&ctx.mods, "z").is_none());
}

#[test]
fn cells_are_resolved() {
    let mut ctx = context(stock());
    ctx.lookup.insert("a".to_string(), 2);
    ctx.lookup.insert("r".to_string(), 1);
    ctx.mods = vec![
        placed("a", "object", vec![OutputValue::GenerateId, known(Field::Text("ASSET:x".to_string()))]),
        placed(
            "r",
            "ItemComponent",
            vec![
                OutputValue::GenerateId,
                awaiting("a"),
                OutputValue::FromJson(JsonValue::String("r".to_string())),
                OutputValue::FromJson(JsonValue::Bool(true)),
            ],
        ),
    ];
    assert_eq!(resolve_references(&mut ctx), Ok(()));
    assert_eq!(
        ctx.mods[0].fields,
        vec![known(Field::Integer(2)), known(Field::Text("..\\mods\\pack\\x".to_string()))]
    );
    assert_eq!(
        ctx.mods[1].fields,
        vec![
            known(Field::Integer(1)),
            known(Field::Integer(2)),
            known(Field::Nothing),
            known(Field::Nothing),
        ]
    );
    let owner = new_mod("r", "ItemComponent");
    let c = column("owner", ValueType::Integer);
    assert_eq!(
        resolve_cell(&ctx.lookup, &owner, &c, &OutputValue::FromJson(JsonValue::String("a".to_string()))),
        Ok(known(Field::Integer(2)))
    );
    assert_eq!(
        resolve_cell(&ctx.lookup, &owner, &c, &OutputValue::FromJson(JsonValue::Bool(true))),
        Err(ModError::TypeMismatch {
            column: "owner".to_string(),
            declared: ValueType::Integer,
            found: JsonKind::Bool
        })
    );
    assert_eq!(
        resolve_cell(&ctx.lookup, &owner, &c, &awaiting("nobody")),
        Err(ModError::UnresolvedSymbol("nobody".to_string()))
    );
    let stranger = new_mod("stranger", "ItemComponent");
    assert_eq!(
        resolve_cell(&ctx.lookup, &stranger, &c, &OutputValue::GenerateId),
        Err(ModError::UnresolvedSymbol("stranger".to_string()))
    );
}

#[test]
fn every_reference_holds_a_bound_number() {
    let mut ctx = context(stock());
    let mut sword = new_mod("sword", "item");
    sword.values.insert("icon".to_string(), JsonValue::String("ASSET:s.dds".to_string()));
    let mut shield = new_mod("shield", "object");
    shield.components.push("sword:RenderComponent".to_string());
    assert_eq!(apply_mod(&mut ctx, sword), Ok(()));
    assert_eq!(apply_mod(&mut ctx, shield), Ok(()));
    let mut owned = new_mod("tag", "ItemComponent");
    owned.values.insert("owner".to_string(), JsonValue::String("shield".to_string()));
    assert_eq!(apply_mod(&mut ctx, owned), Ok(()));
    assert!(check_limits(&ctx));
    let registry = compile_mods(&mut ctx).unwrap();
    let bound: Vec<i32> = (0..ctx.lookup.len()).map(|i| *ctx.lookup.value_at(i)).collect();
    for m in &ctx.mods {
        for cell in &m.fields {
            match cell {
                OutputValue::Known(Field::Integer(n)) => assert!(bound.contains(n)),
                OutputValue::Known(_) => {}
                other => panic!("{:?}", other),
            }
        }
    }
    assert_eq!(ctx.lookup.get("sword"), Some(&2));
    assert_eq!(ctx.lookup.get("shield"), Some(&4));
    assert_eq!(ctx.lookup.get("sword:RenderComponent"), Some(&1));
    assert_eq!(ctx.lookup.get("sword:ItemComponent"), Some(&1));
    assert_eq!(ctx.lookup.get("tag"), Some(&2));
    assert_eq!(
        registry,
        vec![
            ComponentLink { object: 2, component_type: 11, component: 1 },
            ComponentLink { object: 2, component_type: 2, component: 1 },
            ComponentLink { object: 4, component_type: 2, component: 1 },
        ]
    );
    assert_eq!(
        get_rows_for_insertion(&ctx, &registry, "ItemComponent"),
        Ok(vec![
            vec![Field::Integer(1), Field::Nothing],
            vec![Field::Integer(2), Field::Integer(4)],
        ])
    );
    assert_eq!(
        get_rows_for_insertion(&ctx, &registry, "RenderComponent"),
        Ok(vec![vec![Field::Integer(1), Field::Text("..\\mods\\pack\\s.dds".to_string())]])
    );
    let objects = get_mods_for_table(&ctx, "Objects");
    assert_eq!(objects.iter().map(|m| m.id.as_str()).collect::<Vec<_>>(), vec!["sword", "shield"]);
    assert!(get_mods_for_table(&ctx, "Nowhere").is_empty());
}

#[test]
fn the_registry_needs_every_link() {
    let mut ctx = context(stock());
    let mut a = new_mod("a", "object");
    a.components = vec!["gone".to_string()];
    ctx.mods = vec![a];
    ctx.lookup.insert("a".to_string(), 1);
    assert_eq!(build_registry(&ctx), Err(ModError::UnresolvedSymbol("gone".to_string())));
    let mut ctx = context(stock());
    let mut a = new_mod("a", "object");
    a.components = vec!["b".to_string()];
    ctx.mods = vec![a, new_mod("b", "Widget")];
    assert_eq!(build_registry(&ctx), Err(ModError::UnknownComponent("Widget".to_string())));
    ctx.mods[1].mod_type = "RenderComponent".to_string();
    assert_eq!(build_registry(&ctx), Err(ModError::UnresolvedSymbol("b".to_string())));
    ctx.lookup.insert("b".to_string(), 8);
    assert_eq!(build_registry(&ctx), Err(ModError::UnresolvedSymbol("a".to_string())));
    ctx.lookup.insert("a".to_string(), 5);
    assert_eq!(
        build_registry(&ctx),
        Ok(vec![ComponentLink { object: 5, component_type: 2, component: 8 }])
    );
    ctx.mods[0].mod_type = "Widget".to_string();
    assert_eq!(build_registry(&ctx), Ok(vec![]));
}

#[test]
fn a_row_with_an_open_cell_is_not_written() {
    let mut ctx = context(stock());
    ctx.mods = vec![placed("a", "object", vec![known(Field::Integer(1)), awaiting("b")])];
    assert_eq!(
        get_rows_for_insertion(&ctx, &Vec::new(), "Objects"),
        Err(ModError::UnresolvedSymbol("a".to_string()))
    );
    assert_eq!(get_rows_for_insertion(&ctx, &Vec::new(), "RenderComponent"), Ok(vec![]));
    assert_eq!(typed_row(&vec![known(Field::Boolean(true))]), Some(vec![Field::Boolean(true)]));
    assert_eq!(typed_row(&vec![OutputValue::GenerateId]), None);
    assert_eq!(
        typed_row(&vec![OutputValue::FromJson(JsonValue::Number(JsonNumber::Integer(1)))]),
        None
    );
}

#[test]
fn phrases_take_the_number_of_their_mod() {
    let mut ctx = context(stock());
    let mut a = new_mod("a", "object");
    a.new_locale_entries = vec![
        Phrase {
            id: "Objects_{}_name".to_string(),
            translations: vec![Translation { locale: "en_US".to_string(), value: "A".to_string() }],
        },
        Phrase { id: "Fixed".to_string(), translations: vec![] },
    ];
    let mut b = new_mod("b", "object");
    b.new_locale_entries = vec![Phrase { id: "Plain".to_string(), translations: vec![] }];
    ctx.mods = vec![a, b];
    ctx.lookup.insert("a".to_string(), 12);
    assert_eq!(fix_locale(&mut ctx), Ok(true));
    assert_eq!(
        ctx.localization.phrases.phrase.iter().map(|p| p.id.as_str()).collect::<Vec<_>>(),
        vec!["Old", "Objects_12_name", "Fixed", "Plain"]
    );
    assert_eq!(ctx.localization.phrases.phrase[1].translations.len(), 1);
    assert_eq!(ctx.localization.phrases.count, 4);
    assert_eq!(ctx.localization.locales.count, 1);
    let unbound = new_mod("c", "object");
    assert_eq!(
        fix_phrase(
            &ctx.lookup,
            &unbound,
            &Phrase { id: "Objects_{}_name".to_string(), translations: vec![] }
        ),
        Err(ModError::UnresolvedSymbol("c".to_string()))
    );
}

#[test]
fn counts_follow_the_lists() {
    let mut catalogue = context(stock()).localization;
    assert_eq!((catalogue.locales.count, catalogue.phrases.count), (7, 9));
    assert!(catalogue.update_counts());
    assert_eq!(catalogue.locales.count as usize, catalogue.locales.locale.len());
    assert_eq!(catalogue.phrases.count as usize, catalogue.phrases.phrase.len());
    let phrase = Phrase { id: "A_{}_b_{}".to_string(), translations: vec![] };
    assert_eq!(phrase.with_id(5).id, "A_5_b_5");
    assert_eq!(phrase.with_id(-3).id, "A_-3_b_-3");
}
