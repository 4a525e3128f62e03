//! The values that a mod of each kind has where its author gave none.

use vstd::prelude::*;
use crate::value::{JsonNumber, JsonValue, JsonView};

verus! {

/// A table of defaults by the views of its entries.
pub open spec fn defaults_view(table: Seq<(&'static str, JsonValue)>) -> Seq<(Seq<char>, JsonView)> {
    Seq::new(table.len(), |i: int| (table[i].0@, table[i].1@))
}

/// The defaults of an item.
pub open spec fn item_defaults() -> Seq<(Seq<char>, JsonView)> {
    seq![
        ("nametag"@, JsonView::Bool(false)),
        ("localize"@, JsonView::Bool(true)),
        ("locStatus"@, JsonView::Number(JsonNumber::Integer(2i64))),
        ("offsetGroupID"@, JsonView::Number(JsonNumber::Integer(78i64))),
        ("itemInfo"@, JsonView::Number(JsonNumber::Integer(0i64))),
        ("fade"@, JsonView::Bool(true)),
        ("fadeInTime"@, JsonView::Number(JsonNumber::Integer(1i64))),
        ("shader_id"@, JsonView::Number(JsonNumber::Integer(23i64))),
        ("audioEquipMetaEventSet"@, JsonView::String("Weapon_Hammer_Generic"@)),
    ]
}

pub fn item_default_table() -> (table: Vec<(&'static str, JsonValue)>)
    ensures
        defaults_view(table@) == item_defaults(),
{
    let mut table: Vec<(&'static str, JsonValue)> = Vec::new();
    table.push(("nametag", JsonValue::Bool(false)));
    table.push(("localize", JsonValue::Bool(true)));
    table.push(("locStatus", JsonValue::Number(JsonNumber::Integer(2))));
    table.push(("offsetGroupID", JsonValue::Number(JsonNumber::Integer(78))));
    table.push(("itemInfo", JsonValue::Number(JsonNumber::Integer(0))));
    table.push(("fade", JsonValue::Bool(true)));
    table.push(("fadeInTime", JsonValue::Number(JsonNumber::Integer(1))));
    table.push(("shader_id", JsonValue::Number(JsonNumber::Integer(23))));
    table.push(("audioEquipMetaEventSet", JsonValue::String(String::from_str("Weapon_Hammer_Generic"))));
    assert(defaults_view(table@) =~= item_defaults());
    table
}

/// The defaults of a part of the scenery.
pub open spec fn environmental_defaults() -> Seq<(Seq<char>, JsonView)> {
    seq![
        ("static"@, JsonView::Number(JsonNumber::Integer(1i64))),
        ("shader_id"@, JsonView::Number(JsonNumber::Integer(1i64))),
    ]
}

pub fn environmental_default_table() -> (table: Vec<(&'static str, JsonValue)>)
    ensures
        defaults_view(table@) == environmental_defaults(),
{
    let mut table: Vec<(&'static str, JsonValue)> = Vec::new();
    table.push(("static", JsonValue::Number(JsonNumber::Integer(1))));
    table.push(("shader_id", JsonValue::Number(JsonNumber::Integer(1))));
    assert(defaults_view(table@) =~= environmental_defaults());
    table
}

/// The defaults of a mission.
pub open spec fn mission_defaults() -> Seq<(Seq<char>, JsonView)> {
    seq![
        ("locStatus"@, JsonView::Number(JsonNumber::Integer(2i64))),
        ("UIPrereqID"@, JsonView::Null),
        ("localize"@, JsonView::Bool(true)),
        ("isMission"@, JsonView::Bool(true)),
        ("isChoiceReward"@, JsonView::Bool(false)),
        ("missionIconID"@, JsonView::Null),
        ("time_limit"@, JsonView::Null),
        ("reward_item1"@, JsonView::Number(JsonNumber::Integer(-1i64))),
        ("reward_item2"@, JsonView::Number(JsonNumber::Integer(-1i64))),
        ("reward_item3"@, JsonView::Number(JsonNumber::Integer(-1i64))),
        ("reward_item4"@, JsonView::Number(JsonNumber::Integer(-1i64))),
        ("reward_item1_repeatable"@, JsonView::Number(JsonNumber::Integer(-1i64))),
        ("reward_item2_repeatable"@, JsonView::Number(JsonNumber::Integer(-1i64))),
        ("reward_item3_repeatable"@, JsonView::Number(JsonNumber::Integer(-1i64))),
        ("reward_item4_repeatable"@, JsonView::Number(JsonNumber::Integer(-1i64))),
        ("reward_emote"@, JsonView::Number(JsonNumber::Integer(-1i64))),
        ("reward_emote2"@, JsonView::Number(JsonNumber::Integer(-1i64))),
        ("reward_emote3"@, JsonView::Number(JsonNumber::Integer(-1i64))),
        ("reward_emote4"@, JsonView::Number(JsonNumber::Integer(-1i64))),
        ("reward_maxwallet"@, JsonView::Number(JsonNumber::Integer(0i64))),
        ("reward_reputation"@, JsonView::Number(JsonNumber::Integer(0i64))),
        ("reward_currency_repeatable"@, JsonView::Number(JsonNumber::Integer(0i64))),
    ]
}

pub fn mission_default_table() -> (table: Vec<(&'static str, JsonValue)>)
    ensures
        defaults_view(table@) == mission_defaults(),
{
    let mut table: Vec<(&'static str, JsonValue)> = Vec::new();
    table.push(("locStatus", JsonValue::Number(JsonNumber::Integer(2))));
    table.push(("UIPrereqID", JsonValue::Null));
    table.push(("localize", JsonValue::Bool(true)));
    table.push(("isMission", JsonValue::Bool(true)));
    table.push(("isChoiceReward", JsonValue::Bool(false)));
    table.push(("missionIconID", JsonValue::Null));
    table.push(("time_limit", JsonValue::Null));
    table.push(("reward_item1", JsonValue::Number(JsonNumber::Integer(-1))));
    table.push(("reward_item2", JsonValue::Number(JsonNumber::Integer(-1))));
    table.push(("reward_item3", JsonValue::Number(JsonNumber::Integer(-1))));
    table.push(("reward_item4", JsonValue::Number(JsonNumber::Integer(-1))));
    table.push(("reward_item1_repeatable", JsonValue::Number(JsonNumber::Integer(-1))));
    table.push(("reward_item2_repeatable", JsonValue::Number(JsonNumber::Integer(-1))));
    table.push(("reward_item3_repeatable", JsonValue::Number(JsonNumber::Integer(-1))));
    table.push(("reward_item4_repeatable", JsonValue::Number(JsonNumber::Integer(-1))));
    table.push(("reward_emote", JsonValue::Number(JsonNumber::Integer(-1))));
    table.push(("reward_emote2", JsonValue::Number(JsonNumber::Integer(-1))));
    table.push(("reward_emote3", JsonValue::Number(JsonNumber::Integer(-1))));
    table.push(("reward_emote4", JsonValue::Number(JsonNumber::Integer(-1))));
    table.push(("reward_maxwallet", JsonValue::Number(JsonNumber::Integer(0))));
    table.push(("reward_reputation", JsonValue::Number(JsonNumber::Integer(0))));
    table.push(("reward_currency_repeatable", JsonValue::Number(JsonNumber::Integer(0))));
    assert(defaults_view(table@) =~= mission_defaults());
    table
}

/// The defaults of a character.
pub open spec fn npc_defaults() -> Seq<(Seq<char>, JsonView)> {
    seq![
        ("render_asset"@, JsonView::String("animations\\\\minifig\\\\mf_ambient.kfm"@)),
        ("animationGroupIDs"@, JsonView::String("93"@)),
        ("shader_id"@, JsonView::Number(JsonNumber::Integer(14i64))),
        ("static"@, JsonView::Number(JsonNumber::Integer(1i64))),
        ("jump"@, JsonView::Number(JsonNumber::Integer(0i64))),
        ("doublejump"@, JsonView::Number(JsonNumber::Integer(0i64))),
        ("speed"@, JsonView::Number(JsonNumber::Integer(5i64))),
        ("rotSpeed"@, JsonView::Number(JsonNumber::Integer(360i64))),
        ("playerHeight"@, JsonView::Number(JsonNumber::Real(0x408CCCCD))),
        ("playerRadius"@, JsonView::Number(JsonNumber::Integer(1i64))),
        ("pcShapeType"@, JsonView::Number(JsonNumber::Integer(2i64))),
        ("collisionGroup"@, JsonView::Number(JsonNumber::Integer(3i64))),
        ("airSpeed"@, JsonView::Number(JsonNumber::Integer(5i64))),
        ("jumpAirSpeed"@, JsonView::Number(JsonNumber::Integer(25i64))),
        ("interactionDistance"@, JsonView::Null),
        ("chatBubbleOffset"@, JsonView::Null),
        ("fade"@, JsonView::Bool(true)),
        ("fadeInTime"@, JsonView::Number(JsonNumber::Integer(1i64))),
        ("billboardHeight"@, JsonView::Null),
        ("AudioMetaEventSet"@, JsonView::String("Emotes_Non_Player"@)),
        ("usedropshadow"@, JsonView::Bool(false)),
        ("preloadAnimations"@, JsonView::Bool(false)),
        ("ignoreCameraCollision"@, JsonView::Bool(false)),
        ("gradualSnap"@, JsonView::Bool(false)),
        ("staticBillboard"@, JsonView::Bool(false)),
        ("attachIndicatorsToNode"@, JsonView::Bool(false)),
        ("npcTemplateID"@, JsonView::Number(JsonNumber::Integer(14i64))),
        ("nametag"@, JsonView::Bool(true)),
        ("placeable"@, JsonView::Bool(true)),
        ("localize"@, JsonView::Bool(true)),
        ("locStatus"@, JsonView::Number(JsonNumber::Integer(2i64))),
    ]
}

pub fn npc_default_table() -> (table: Vec<(&'static str, JsonValue)>)
    ensures
        defaults_view(table@) == npc_defaults(),
{
    let mut table: Vec<(&'static str, JsonValue)> = Vec::new();
    table.push(("render_asset", JsonValue::String(String::from_str("animations\\\\minifig\\\\mf_ambient.kfm"))));
    table.push(("animationGroupIDs", JsonValue::String(String::from_str("93"))));
    table.push(("shader_id", JsonValue::Number(JsonNumber::Integer(14))));
    table.push(("static", JsonValue::Number(JsonNumber::Integer(1))));
    table.push(("jump", JsonValue::Number(JsonNumber::Integer(0))));
    table.push(("doublejump", JsonValue::Number(JsonNumber::Integer(0))));
    table.push(("speed", JsonValue::Number(JsonNumber::Integer(5))));
    table.push(("rotSpeed", JsonValue::Number(JsonNumber::Integer(360))));
    table.push(("playerHeight", JsonValue::Number(JsonNumber::Real(0x408CCCCD))));
    table.push(("playerRadius", JsonValue::Number(JsonNumber::Integer(1))));
    table.push(("pcShapeType", JsonValue::Number(JsonNumber::Integer(2))));
    table.push(("collisionGroup", JsonValue::Number(JsonNumber::Integer(3))));
    table.push(("airSpeed", JsonValue::Number(JsonNumber::Integer(5))));
    table.push(("jumpAirSpeed", JsonValue::Number(JsonNumber::Integer(25))));
    table.push(("interactionDistance", JsonValue::Null));
    table.push(("chatBubbleOffset", JsonValue::Null));
    table.push(("fade", JsonValue::Bool(true)));
    table.push(("fadeInTime", JsonValue::Number(JsonNumber::Integer(1))));
    table.push(("billboardHeight", JsonValue::Null));
    table.push(("AudioMetaEventSet", JsonValue::String(String::from_str("Emotes_Non_Player"))));
    table.push(("usedropshadow", JsonValue::Bool(false)));
    table.push(("preloadAnimations", JsonValue::Bool(false)));
    table.push(("ignoreCameraCollision", JsonValue::Bool(false)));
    table.push(("gradualSnap", JsonValue::Bool(false)));
    table.push(("staticBillboard", JsonValue::Bool(false)));
    table.push(("attachIndicatorsToNode", JsonValue::Bool(false)));
    table.push(("npcTemplateID", JsonValue::Number(JsonNumber::Integer(14))));
    table.push(("nametag", JsonValue::Bool(true)));
    table.push(("placeable", JsonValue::Bool(true)));
    table.push(("localize", JsonValue::Bool(true)));
    table.push(("locStatus", JsonValue::Number(JsonNumber::Integer(2))));
    assert(defaults_view(table@) =~= npc_defaults());
    table
}

} // verus!
