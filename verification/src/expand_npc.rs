//! The expansion of a character: besides its components it offers missions
//! and carries items.

use vstd::prelude::*;
use crate::defaults::{npc_default_table, npc_defaults};
use crate::error::{ModError, ModErrorView};
use crate::expand::{
    apply_object_mod,
    child_of,
    names,
    new_heir,
    object_expansion,
    push_children,
    reference,
    reference_to,
    whole,
    with_children,
    with_components,
    with_defaults,
};
use crate::lu_mod::{with_output, Mod, ModView};
use crate::mod_context::{ModContext, ModContextView};
use crate::schema::TableView;
use crate::text::{decimal, decimal_of_index, joined};
use crate::value::{lemma_views_push, views, JsonNumber, JsonValue, JsonView, OutputView};

verus! {

/// The symbol of the mod at `index` among those that `m` has of kind `kind`.
pub open spec fn shared_id(m: ModView, kind: Seq<char>, index: int) -> Seq<char> {
    m.id + ":"@ + kind + ":"@ + decimal(index)
}

/// One of the mods of kind `kind` that share one identifier: the first asks
/// for a new one, and each other takes that of the first.
pub open spec fn shared_child(m: ModView, kind: Seq<char>, index: int) -> ModView {
    with_output(
        child_of(m, shared_id(m, kind, index), kind, m.output_values),
        "id"@,
        if index == 0 {
            OutputView::GenerateId
        } else {
            OutputView::AwaitingId(shared_id(m, kind, 0))
        },
    )
}

/// The mod for the mission at `index` that the character offers.
pub open spec fn offer_child(m: ModView, index: int) -> ModView {
    let offer = m.missions[index];
    with_output(
        with_output(
            with_output(
                shared_child(m, "MissionNPCComponent"@, index),
                "missionID"@,
                OutputView::FromJson(JsonView::String(offer.mission)),
            ),
            "offersMission"@,
            OutputView::FromJson(JsonView::Bool(offer.offer)),
        ),
        "acceptsMission"@,
        OutputView::FromJson(JsonView::Bool(offer.accept)),
    )
}

/// The mod for the item at `index` that the character carries.
pub open spec fn inventory_child(m: ModView, index: int) -> ModView {
    with_output(
        with_output(
            with_output(
                shared_child(m, "InventoryComponent"@, index),
                "count"@,
                OutputView::FromJson(whole(1)),
            ),
            "equip"@,
            OutputView::FromJson(JsonView::Bool(true)),
        ),
        "itemid"@,
        reference(m.items[index]),
    )
}

/// The mods for the missions and the items of the character, before their
/// rows are made.
pub open spec fn npc_children(m: ModView) -> Seq<ModView> {
    Seq::new(m.missions.len(), |i: int| offer_child(m, i)) + Seq::new(
        m.items.len(),
        |i: int| inventory_child(m, i),
    )
}

/// The components of the character with those that its missions and its
/// items share.
pub open spec fn npc_components(m: ModView) -> Seq<Seq<char>> {
    let offered = if m.missions.len() > 0 {
        m.components.push(shared_id(m, "MissionNPCComponent"@, 0))
    } else {
        m.components
    };
    if m.items.len() > 0 {
        offered.push(shared_id(m, "InventoryComponent"@, 0))
    } else {
        offered
    }
}

/// A character: its defaults, the type `UserGeneratedNPCs`, its three
/// components, a mod for each mission that it offers and for each item that
/// it carries, and then the object itself.
pub open spec fn npc_expansion(database: Seq<TableView>, buffer: Seq<ModView>, m: ModView) -> Result<
    (Seq<ModView>, ModView),
    ModErrorView,
> {
    let start = with_output(
        with_defaults(m, npc_defaults()),
        "type"@,
        OutputView::FromJson(JsonView::String("UserGeneratedNPCs"@)),
    );
    match with_components(
        database,
        (buffer, start),
        seq!["SimplePhysicsComponent"@, "RenderComponent"@, "MinifigComponent"@],
    ) {
        Err(e) => Err(e),
        Ok((attached, owner)) => match with_children(database, attached, npc_children(owner)) {
            Err(e) => Err(e),
            Ok(linked) => match object_expansion(
                database,
                ModView { components: npc_components(owner), ..owner },
            ) {
                Err(e) => Err(e),
                Ok(object) => Ok((linked, object)),
            },
        },
    }
}

/// One of the mods of kind `kind` of `lu_mod` that share one identifier.
fn new_shared(lu_mod: &Mod, kind: &str, index: usize) -> (out: Mod)
    ensures
        out@ == shared_child(lu_mod@, kind@, index as int),
{
    let stem = joined(joined(joined(lu_mod.id.as_str(), ":").as_str(), kind).as_str(), ":");
    let id = joined(stem.as_str(), decimal_of_index(index).as_str());
    let mut out = new_heir(lu_mod, id, kind);
    if index == 0 {
        out.set_to_be_generated("id");
    } else {
        let first = joined(stem.as_str(), decimal_of_index(0).as_str());
        out.set_awaiting_id("id", first.as_str());
    }
    out
}

/// The mods for the missions and the items of `lu_mod`.
fn make_npc_children(lu_mod: &Mod) -> (children: Vec<Mod>)
    ensures
        views(children@) == npc_children(lu_mod@),
{
    let mut children: Vec<Mod> = Vec::new();
    let ghost offers = Seq::new(lu_mod@.missions.len(), |i: int| offer_child(lu_mod@, i));
    let ghost carried = Seq::new(lu_mod@.items.len(), |i: int| inventory_child(lu_mod@, i));
    let mut index: usize = 0;
    assert(views(children@) =~= offers.take(0));
    while index < lu_mod.missions.len()
        invariant
            index <= lu_mod.missions@.len(),
            offers == Seq::new(lu_mod@.missions.len(), |i: int| offer_child(lu_mod@, i)),
            views(children@) == offers.take(index as int),
        decreases lu_mod.missions.len() - index,
    {
        let mission = &lu_mod.missions[index];
        let mut child = new_shared(lu_mod, "MissionNPCComponent", index);
        child.set_value("missionID", JsonValue::String(mission.mission.clone()));
        child.set_value("offersMission", JsonValue::Bool(mission.offer));
        child.set_value("acceptsMission", JsonValue::Bool(mission.accept));
        proof {
            assert(lu_mod@.missions[index as int] == mission@);
            assert(child@ == offer_child(lu_mod@, index as int));
            lemma_views_push(children@, child);
            assert(offers.take(index + 1) == offers.take(index as int).push(child@));
        }
        children.push(child);
        index += 1;
    }
    assert(offers.take(offers.len() as int) == offers);
    let mut index: usize = 0;
    assert(views(children@) =~= offers + carried.take(0));
    while index < lu_mod.items.len()
        invariant
            index <= lu_mod.items@.len(),
            carried == Seq::new(lu_mod@.items.len(), |i: int| inventory_child(lu_mod@, i)),
            views(children@) == offers + carried.take(index as int),
        decreases lu_mod.items.len() - index,
    {
        let mut child = new_shared(lu_mod, "InventoryComponent", index);
        child.set_value("count", JsonValue::Number(JsonNumber::Integer(1)));
        child.set_value("equip", JsonValue::Bool(true));
        let item = reference_to(&lu_mod.items[index]);
        child.output_values.insert(String::from_str("itemid"), item);
        proof {
            assert(lu_mod@.items[index as int] == lu_mod.items@[index as int]@);
            assert(child@ == inventory_child(lu_mod@, index as int));
            lemma_views_push(children@, child);
            assert(offers + carried.take(index + 1) == (offers + carried.take(index as int)).push(
                child@,
            ));
        }
        children.push(child);
        index += 1;
    }
    assert(carried.take(carried.len() as int) == carried);
    children
}

/// The symbol of the first of the mods of kind `kind` of `lu_mod`.
fn first_shared_id(lu_mod: &Mod, kind: &str) -> (id: String)
    ensures
        id@ == shared_id(lu_mod@, kind@, 0),
{
    let stem = joined(joined(joined(lu_mod.id.as_str(), ":").as_str(), kind).as_str(), ":");
    joined(stem.as_str(), decimal_of_index(0).as_str())
}

/// Expands a character.
pub fn apply_npc_mod(mod_context: &mut ModContext, lu_mod: &mut Mod) -> (done: Result<(), ModError>)
    ensures
        match npc_expansion(old(mod_context)@.database, old(mod_context)@.mods, old(lu_mod)@) {
            Ok((buffer, m)) => {
                &&& done is Ok
                &&& final(lu_mod)@ == m
                &&& final(mod_context)@ == (ModContextView { mods: buffer, ..old(mod_context)@ })
            },
            Err(e) => done matches Err(x) && x@ == e,
        },
{
    let defaults = npc_default_table();
    lu_mod.set_defaults(&defaults);
    lu_mod.set_value("type", JsonValue::String(String::from_str("UserGeneratedNPCs")));
    let mut types: Vec<&'static str> = Vec::new();
    types.push("SimplePhysicsComponent");
    types.push("RenderComponent");
    types.push("MinifigComponent");
    assert(names(types@) =~= seq![
        "SimplePhysicsComponent"@,
        "RenderComponent"@,
        "MinifigComponent"@,
    ]);
    match lu_mod.add_components(mod_context, &types) {
        Ok(()) => {},
        Err(e) => {
            return Err(e);
        },
    }
    let children = make_npc_children(lu_mod);
    match push_children(mod_context, &children) {
        Ok(()) => {},
        Err(e) => {
            return Err(e);
        },
    }
    if lu_mod.missions.len() > 0 {
        let first = first_shared_id(lu_mod, "MissionNPCComponent");
        proof {
            lemma_views_push(lu_mod.components@, first);
        }
        lu_mod.components.push(first);
    }
    if lu_mod.items.len() > 0 {
        let first = first_shared_id(lu_mod, "InventoryComponent");
        proof {
            lemma_views_push(lu_mod.components@, first);
        }
        lu_mod.components.push(first);
    }
    apply_object_mod(mod_context, lu_mod)
}

} // verus!
