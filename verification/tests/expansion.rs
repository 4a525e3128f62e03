use lu_mod_tool::apply::{add_row, apply_mod, expand};
use lu_mod_tool::defaults::{
    environmental_default_table, item_default_table, mission_default_table, npc_default_table,
};
use lu_mod_tool::dict::Dict;
use lu_mod_tool::error::ModError;
use lu_mod_tool::expand::{add_icon, apply_component_mod, apply_object_mod};
use lu_mod_tool::locale::{Locales, Localization, Phrase, Phrases, Translation};
use lu_mod_tool::lu_mod::Mod;
use lu_mod_tool::mission::{MissionOffer, MissionTask};
use lu_mod_tool::mod_context::ModContext;
use lu_mod_tool::mods::Mods;
use lu_mod_tool::schema::{Column, Database, Table};
use lu_mod_tool::value::{
    Field, JsonKind, JsonMember, JsonNumber, JsonValue, OutputValue, ValueType,
};

fn column(name: &str, value_type: ValueType) -> Column {
    Column { name: name.to_string(), value_type }
}

fn table(name: &str, columns: Vec<Column>) -> Table {
    Table { name: name.to_string(), columns, primary_keys: vec![], bucket_count: 1 }
}

fn id_only(name: &str) -> Table {
    table(name, vec![column("id", ValueType::Integer)])
}

fn stock() -> Database {
    Database {
        tables: vec![
            table(
                "Objects",
                vec![
                    column("id", ValueType::Integer),
                    column("type", ValueType::Text),
                    column("nametag", ValueType::Boolean),
                ],
            ),
            table(
                "PhysicsComponent",
                vec![column("id", ValueType::Integer), column("static", ValueType::Float)],
            ),
            table(
                "RenderComponent",
                vec![column("id", ValueType::Integer), column("render_asset", ValueType::Text)],
            ),
            id_only("MinifigComponent"),
            id_only("ItemComponent"),
            id_only("SkillComponent"),
            id_only("DestructibleComponent"),
            id_only("MovementAIComponent"),
            id_only("BaseCombatAIComponent"),
            table(
                "MissionNPCComponent",
                vec![
                    column("id", ValueType::Integer),
                    column("missionID", ValueType::Integer),
                    column("offersMission", ValueType::Boolean),
                    column("acceptsMission", ValueType::Boolean),
                ],
            ),
            table(
                "InventoryComponent",
                vec![
                    column("id", ValueType::Integer),
                    column("itemid", ValueType::Integer),
                    column("count", ValueType::Integer),
                    column("equip", ValueType::Boolean),
                ],
            ),
            table(
                "Missions",
                vec![
                    column("id", ValueType::Integer),
                    column("missionIconID", ValueType::Integer),
                    column("locStatus", ValueType::Integer),
                    column("isMission", ValueType::Boolean),
                    column("reward_item1", ValueType::Integer),
                ],
            ),
            table(
                "MissionText",
                vec![
                    column("id", ValueType::Integer),
                    column("turnInIconID", ValueType::Integer),
                    column("localize", ValueType::Boolean),
                ],
            ),
            table(
                "MissionTasks",
                vec![
                    column("id", ValueType::Integer),
                    column("taskType", ValueType::Integer),
                    column("target", ValueType::Integer),
                    column("targetGroup", ValueType::Text),
                    column("targetValue", ValueType::Integer),
                    column("uid", ValueType::Integer),
                    column("largeTaskIconID", ValueType::Integer),
                    column("IconID", ValueType::Integer),
                    column("localize", ValueType::Boolean),
                ],
            ),
            table(
                "Icons",
                vec![column("IconID", ValueType::Integer), column("IconPath", ValueType::Text)],
            ),
            table(
                "Emotes",
                vec![column("emoteID", ValueType::Integer), column("animationName", ValueType::Text)],
            ),
        ],
    }
}

fn context() -> ModContext {
    ModContext {
        configuration: Mods::default(),
        root: String::new(),
        database: stock(),
        localization: Localization {
            version: 0,
            locales: Locales { count: 0, locale: vec![] },
            phrases: Phrases { count: 0, phrase: vec![] },
        },
        mods: vec![],
        server_sql: vec![],
        lookup: Dict::new(),
    }
}

fn new_mod(id: &str, kind: &str) -> Mod {
    let mut m = Mod::default();
    m.id = id.to_string();
    m.mod_type = kind.to_string();
    m.dir = "pack".to_string();
    m
}

fn integer(n: i64) -> JsonValue {
    JsonValue::Number(JsonNumber::Integer(n))
}

fn text(s: &str) -> JsonValue {
    JsonValue::String(s.to_string())
}

fn known(field: Field) -> OutputValue {
    OutputValue::Known(field)
}

fn awaiting(name: &str) -> OutputValue {
    OutputValue::AwaitingId(name.to_string())
}

fn ids(ctx: &ModContext) -> Vec<String> {
    ctx.mods.iter().map(|m| m.id.clone()).collect()
}

#[test]
fn a_blank_mod_adds() {
    let m = Mod::default();
    assert_eq!(m.action, "add");
    assert_eq!(m.id, "");
    assert_eq!(m.show_defaults, None);
    assert!(m.components.is_empty() && m.fields.is_empty() && m.new_locale_entries.is_empty());
    assert_eq!(m.values.len() + m.output_values.len() + m.locale.len(), 0);
}

#[test]
fn defaults_yield_to_the_author() {
    let mut m = new_mod("a", "item");
    m.values.insert("fade".to_string(), JsonValue::Bool(false));
    m.init_output_values();
    assert_eq!(m.output_values.get("fade"), Some(&OutputValue::FromJson(JsonValue::Bool(false))));
    m.set_default("fade", JsonValue::Bool(true));
    m.set_default("shader_id", integer(23));
    assert_eq!(m.output_values.get("fade"), Some(&OutputValue::FromJson(JsonValue::Bool(false))));
    assert_eq!(m.output_values.get("shader_id"), Some(&OutputValue::FromJson(integer(23))));
    m.set_value("fade", JsonValue::Bool(true));
    assert_eq!(m.output_values.get("fade"), Some(&OutputValue::FromJson(JsonValue::Bool(true))));
    m.set_to_be_generated("id");
    m.set_awaiting_id("owner", "b");
    assert_eq!(m.output_values.get("id"), Some(&OutputValue::GenerateId));
    assert_eq!(m.output_values.get("owner"), Some(&awaiting("b")));
    assert_eq!(m.get_target_table_name(), "Objects");
}

#[test]
fn tables_of_defaults() {
    let item = item_default_table();
    assert_eq!(item.len(), 9);
    assert_eq!(item[3], ("offsetGroupID", integer(78)));
    assert_eq!(item[8], ("audioEquipMetaEventSet", text("Weapon_Hammer_Generic")));
    assert_eq!(environmental_default_table(), vec![("static", integer(1)), ("shader_id", integer(1))]);
    let mission = mission_default_table();
    assert_eq!(mission.len(), 22);
    assert_eq!(mission[1], ("UIPrereqID", JsonValue::Null));
    assert_eq!(mission[7], ("reward_item1", integer(-1)));
    let npc = npc_default_table();
    assert_eq!(npc.len(), 31);
    assert_eq!(npc[0], ("render_asset", text("animations\\\\minifig\\\\mf_ambient.kfm")));
    assert_eq!(npc[8], ("playerHeight", JsonValue::Number(JsonNumber::Real(4.4f32.to_bits()))));
    assert_eq!(f32::from_bits(0x408CCCCD), 4.4f64 as f32);
}

#[test]
fn phrases_are_noted() {
    let mut m = new_mod("a", "object");
    m.add_locale("Objects_{}_name");
    assert!(m.new_locale_entries.is_empty());
    m.locale.insert("en_US".to_string(), "A".to_string());
    m.locale.insert("de_DE".to_string(), "B".to_string());
    m.add_locale("Objects_{}_name");
    assert_eq!(
        m.new_locale_entries,
        vec![Phrase {
            id: "Objects_{}_name".to_string(),
            translations: vec![
                Translation { locale: "en_US".to_string(), value: "A".to_string() },
                Translation { locale: "de_DE".to_string(), value: "B".to_string() },
            ],
        }]
    );
    m.values.insert(
        "offer".to_string(),
        JsonValue::Object(vec![JsonMember {
            name: "en_US".to_string(),
            text: Some("Hello".to_string()),
        }]),
    );
    m.values.insert(
        "bad".to_string(),
        JsonValue::Object(vec![JsonMember { name: "en_US".to_string(), text: None }]),
    );
    m.values.insert("plain".to_string(), text("x"));
    m.add_locale_from_value("MissionText_{}_offer", "offer");
    m.add_locale_from_value("MissionText_{}_bad", "bad");
    m.add_locale_from_value("MissionText_{}_plain", "plain");
    m.add_locale_from_value("MissionText_{}_none", "none");
    assert_eq!(m.new_locale_entries.len(), 2);
    assert_eq!(
        m.new_locale_entries[1],
        Phrase {
            id: "MissionText_{}_offer".to_string(),
            translations: vec![Translation {
                locale: "en_US".to_string(),
                value: "Hello".to_string()
            }],
        }
    );
}

#[test]
fn an_object_asks_for_a_key() {
    let mut ctx = context();
    let mut m = new_mod("a", "object");
    m.set_value("type", text("ASSET:thing"));
    assert_eq!(apply_object_mod(&mut ctx, &mut m), Ok(()));
    assert_eq!(
        m.fields,
        vec![
            OutputValue::GenerateId,
            known(Field::Text("..\\mods\\pack\\thing".to_string())),
            known(Field::Nothing),
        ]
    );
    assert!(ctx.mods.is_empty());
}

#[test]
fn a_component_inherits_the_values() {
    let mut ctx = context();
    let mut m = new_mod("a", "object");
    m.set_value("render_asset", text("mesh.nif"));
    let child = m.add_component(&mut ctx, "RenderComponent").unwrap();
    assert_eq!(child.id, "a:RenderComponent");
    assert_eq!(child.mod_type, "RenderComponent");
    assert_eq!(child.dir, "pack");
    assert_eq!(
        child.fields,
        vec![OutputValue::GenerateId, known(Field::Text("mesh.nif".to_string()))]
    );
    assert_eq!(m.components, vec!["a:RenderComponent".to_string()]);
    assert_eq!(ids(&ctx), vec!["a:RenderComponent"]);
    assert_eq!(ctx.mods[0].fields, child.fields);
    let mut other = new_mod("c", "MinifigComponent");
    assert_eq!(apply_component_mod(&ctx, &mut other), Ok(()));
    assert_eq!(other.fields, vec![OutputValue::GenerateId]);
}

#[test]
fn a_character_with_missions_and_items() {
    let mut ctx = context();
    let mut bob = new_mod("bob", "npc");
    bob.missions.push(MissionOffer { mission: "quest".to_string(), accept: false, offer: true });
    bob.missions.push(MissionOffer { mission: "other".to_string(), accept: true, offer: false });
    bob.items.push(integer(7));
    bob.items.push(text("sword"));
    assert_eq!(apply_mod(&mut ctx, bob), Ok(()));
    assert_eq!(
        ids(&ctx),
        vec![
            "bob",
            "bob:SimplePhysicsComponent",
            "bob:RenderComponent",
            "bob:MinifigComponent",
            "bob:MissionNPCComponent:0",
            "bob:MissionNPCComponent:1",
            "bob:InventoryComponent:0",
            "bob:InventoryComponent:1",
        ]
    );
    let bob = &ctx.mods[0];
    assert_eq!(
        bob.components,
        vec![
            "bob:SimplePhysicsComponent",
            "bob:RenderComponent",
            "bob:MinifigComponent",
            "bob:MissionNPCComponent:0",
            "bob:InventoryComponent:0",
        ]
    );
    assert_eq!(bob.mod_type, "npc");
    assert_eq!(
        bob.fields,
        vec![
            OutputValue::GenerateId,
            known(Field::Text("UserGeneratedNPCs".to_string())),
            known(Field::Boolean(true)),
        ]
    );
    assert_eq!(
        ctx.mods[1].fields,
        vec![OutputValue::GenerateId, known(Field::Float(lu_mod_tool::value::Real::Whole(1)))]
    );
    assert_eq!(
        ctx.mods[2].fields,
        vec![
            OutputValue::GenerateId,
            known(Field::Text("animations\\\\minifig\\\\mf_ambient.kfm".to_string())),
        ]
    );
    assert_eq!(
        ctx.mods[4].fields,
        vec![
            OutputValue::GenerateId,
            awaiting("quest"),
            known(Field::Boolean(true)),
            known(Field::Boolean(false)),
        ]
    );
    assert_eq!(
        ctx.mods[5].fields,
        vec![
            awaiting("bob:MissionNPCComponent:0"),
            awaiting("other"),
            known(Field::Boolean(false)),
            known(Field::Boolean(true)),
        ]
    );
    assert_eq!(
        ctx.mods[6].fields,
        vec![
            OutputValue::GenerateId,
            known(Field::Integer(7)),
            known(Field::Integer(1)),
            known(Field::Boolean(true)),
        ]
    );
    assert_eq!(
        ctx.mods[7].fields,
        vec![
            awaiting("bob:InventoryComponent:0"),
            awaiting("sword"),
            known(Field::Integer(1)),
            known(Field::Boolean(true)),
        ]
    );
}

fn task(kind: &str) -> MissionTask {
    let mut locale = Dict::new();
    locale.insert("en_US".to_string(), "Smash it".to_string());
    MissionTask {
        task_type: kind.to_string(),
        target: integer(5),
        count: 3,
        group: vec!["1".to_string(), "\"two\"".to_string()],
        target_group_string: None,
        parameters: None,
        icon: "ASSET:big.dds".to_string(),
        small_icon: String::new(),
        locale,
    }
}

#[test]
fn a_mission_with_a_task() {
    let mut ctx = context();
    let mut quest = new_mod("quest", "mission");
    quest.locale.insert("en_US".to_string(), "Quest".to_string());
    quest.values.insert("icon".to_string(), text("ASSET:i.dds"));
    quest.values.insert(
        "offer".to_string(),
        JsonValue::Object(vec![JsonMember {
            name: "en_US".to_string(),
            text: Some("Hi".to_string()),
        }]),
    );
    quest.tasks.push(task("Smash"));
    let mut located = task("Location");
    located.target_group_string = Some("here".to_string());
    located.icon = String::new();
    located.small_icon = "small.dds".to_string();
    quest.tasks.push(located);
    assert_eq!(apply_mod(&mut ctx, quest), Ok(()));
    assert_eq!(
        ids(&ctx),
        vec![
            "quest",
            "quest:icon",
            "quest:MissionText",
            "quest:tasks:0:icon",
            "quest:tasks:0",
            "quest:tasks:1:small-icon",
            "quest:tasks:1",
        ]
    );
    assert_eq!(
        ctx.mods[0].fields,
        vec![
            OutputValue::GenerateId,
            awaiting("quest:icon"),
            known(Field::Integer(2)),
            known(Field::Boolean(true)),
            known(Field::Integer(-1)),
        ]
    );
    assert_eq!(
        ctx.mods[0].new_locale_entries.iter().map(|p| p.id.as_str()).collect::<Vec<_>>(),
        vec!["Missions_{}_name", "MissionText_{}_offer"]
    );
    assert_eq!(ctx.mods[1].mod_type, "Icons");
    assert_eq!(
        ctx.mods[1].fields,
        vec![
            OutputValue::GenerateId,
            known(Field::Text("..\\..\\textures\\..\\..\\mods\\pack\\i.dds".to_string())),
        ]
    );
    assert_eq!(
        ctx.mods[2].fields,
        vec![awaiting("quest"), known(Field::Nothing), known(Field::Boolean(true))]
    );
    assert_eq!(
        ctx.mods[4].fields,
        vec![
            awaiting("quest"),
            known(Field::Integer(0)),
            known(Field::Integer(5)),
            known(Field::Text("1,\"two\"".to_string())),
            known(Field::Integer(3)),
            OutputValue::GenerateId,
            awaiting("quest:tasks:0:icon"),
            known(Field::Nothing),
            known(Field::Boolean(true)),
        ]
    );
    assert_eq!(
        ctx.mods[4].new_locale_entries,
        vec![Phrase {
            id: "MissionTasks_{}_description".to_string(),
            translations: vec![Translation {
                locale: "en_US".to_string(),
                value: "Smash it".to_string()
            }],
        }]
    );
    assert_eq!(
        ctx.mods[6].fields,
        vec![
            awaiting("quest"),
            known(Field::Integer(12)),
            known(Field::Integer(5)),
            known(Field::Text("here".to_string())),
            known(Field::Integer(3)),
            OutputValue::GenerateId,
            known(Field::Nothing),
            awaiting("quest:tasks:1:small-icon"),
            known(Field::Boolean(true)),
        ]
    );
    assert_eq!(
        ctx.mods[5].fields[1],
        known(Field::Text("small.dds".to_string()))
    );
}

#[test]
fn a_mission_with_a_turn_in_icon() {
    let mut ctx = context();
    let mut quest = new_mod("q", "mission");
    quest.values.insert("icon-turn-in".to_string(), text("ASSET:ICON:t.dds"));
    assert_eq!(apply_mod(&mut ctx, quest), Ok(()));
    assert_eq!(ids(&ctx), vec!["q", "q:icon-turn-in", "q:MissionText"]);
    assert_eq!(ctx.mods[0].fields[1], known(Field::Nothing));
    assert_eq!(
        ctx.mods[2].fields,
        vec![awaiting("q"), awaiting("q:icon-turn-in"), known(Field::Boolean(true))]
    );
}

#[test]
fn an_unknown_kind_of_task_is_refused() {
    let mut ctx = context();
    let mut quest = new_mod("quest", "mission");
    quest.tasks.push(task("Smash"));
    quest.tasks.push(task("Foobar"));
    assert_eq!(
        apply_mod(&mut ctx, quest),
        Err(ModError::UnknownMissionTaskType("Foobar".to_string()))
    );
    assert!(ctx.mods.is_empty());
}

#[test]
fn an_icon_of_its_own() {
    let mut ctx = context();
    let parent = new_mod("p", "object");
    assert_eq!(add_icon(&mut ctx, &parent, "ASSET:a.dds", "badge"), Ok("p:badge".to_string()));
    assert_eq!(ctx.mods[0].id, "p:badge");
    assert_eq!(ctx.mods[0].output_values.get("IconID"), Some(&OutputValue::GenerateId));
    assert_eq!(
        ctx.mods[0].output_values.get("IconPath"),
        Some(&OutputValue::FromJson(text("ASSET:ICON:a.dds")))
    );
}

#[test]
fn scenery_and_enemies() {
    let mut ctx = context();
    let mut rock = new_mod("rock", "environmental");
    rock.skills.push(integer(1));
    assert_eq!(apply_mod(&mut ctx, rock), Ok(()));
    assert_eq!(ids(&ctx), vec!["rock", "rock:RenderComponent", "rock:SimplePhysicsComponent"]);
    assert_eq!(ctx.mods[0].mod_type, "object");
    assert_eq!(
        ctx.mods[0].fields,
        vec![
            OutputValue::GenerateId,
            known(Field::Text("Environmental".to_string())),
            known(Field::Nothing),
        ]
    );
    assert_eq!(
        ctx.mods[0].components,
        vec!["rock:RenderComponent", "rock:SimplePhysicsComponent"]
    );
    assert_eq!(
        ctx.mods[0].output_values.get("type"),
        Some(&OutputValue::FromJson(text("Environmental")))
    );
    assert_eq!(ctx.mods[0].output_values.get("static"), Some(&OutputValue::FromJson(integer(1))));
    let mut ctx = context();
    let mut foe = new_mod("foe", "enemy");
    foe.skills.push(text("bite"));
    assert_eq!(apply_mod(&mut ctx, foe), Ok(()));
    assert_eq!(
        ids(&ctx),
        vec![
            "foe",
            "foe:ControllablePhysicsComponent",
            "foe:RenderComponent",
            "foe:DestructibleComponent",
            "foe:SkillComponent",
            "foe:MovementAIComponent",
            "foe:BaseCombatAIComponent",
            "foe:skills:0",
        ]
    );
    assert_eq!(ctx.mods[0].output_values.get("type"), Some(&OutputValue::FromJson(text("Enemies"))));
    assert_eq!(ctx.mods[0].mod_type, "object");
    assert_eq!(ctx.mods[0].fields[0], OutputValue::GenerateId);
    assert_eq!(ctx.mods[7].output_values.get("skillID"), Some(&awaiting("bite")));
    assert_eq!(ctx.mods[7].output_values.get("objectTemplate"), Some(&awaiting("foe")));
    assert_eq!(ctx.mods[7].mod_type, "ObjectSkills");
}

#[test]
fn a_row_of_a_named_table() {
    let mut ctx = context();
    let mut wave = new_mod("wave", "Emotes");
    wave.values.insert("animationName".to_string(), text("wave"));
    wave.values.insert("emoteID".to_string(), integer(99));
    assert_eq!(apply_mod(&mut ctx, wave), Ok(()));
    assert_eq!(
        ctx.mods[0].fields,
        vec![OutputValue::GenerateId, known(Field::Text("wave".to_string()))]
    );
    let mut lost = new_mod("lost", "Nowhere");
    assert_eq!(add_row(&ctx, &mut lost), Ok(()));
    assert!(lost.fields.is_empty());
    let mut again = new_mod("again", "Emotes");
    assert_eq!(expand(&mut ctx, &mut again), Ok(()));
    assert_eq!(again.fields, vec![OutputValue::GenerateId, known(Field::Nothing)]);
}

#[test]
fn a_value_of_the_wrong_type_is_refused() {
    let mut ctx = context();
    let mut m = new_mod("a", "object");
    m.values.insert("nametag".to_string(), text("yes"));
    assert_eq!(
        apply_mod(&mut ctx, m),
        Err(ModError::TypeMismatch {
            column: "nametag".to_string(),
            declared: ValueType::Boolean,
            found: JsonKind::String
        })
    );
}

#[test]
fn statements_must_be_a_string() {
    let mut ctx = context();
    assert_eq!(apply_mod(&mut ctx, new_mod("s", "sql")), Err(ModError::SqlValueMissing));
    let mut wrong = new_mod("s", "sql");
    wrong.values.insert("sql".to_string(), integer(1));
    assert_eq!(apply_mod(&mut ctx, wrong), Err(ModError::SqlValueWrongType));
}
