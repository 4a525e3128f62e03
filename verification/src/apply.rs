//! One mod at a time: its kind decides how a mod is expanded, and the mod is
//! then appended to the buffer, followed by the mods that its expansion
//! made.

use vstd::prelude::*;
use crate::component::target_table;
use crate::error::{ModError, ModErrorView};
use crate::expand::{
    apply_enemy_mod,
    apply_environmental_mod,
    apply_item_mod,
    apply_object_mod,
    enemy_expansion,
    environmental_expansion,
    finalized,
    item_expansion,
    object_expansion,
};
use crate::expand_mission::{apply_mission_mod, mission_expansion};
use crate::expand_npc::{apply_npc_mod, npc_expansion};
use crate::lu_mod::{absorbed, with_output, Mod, ModView};
use crate::mod_context::{ModContext, ModContextView};
use crate::schema::{find_table, table_named, TableView};
use crate::sql::{apply_sql_mod, sql_request};
use crate::text::same_text;
use crate::value::{lemma_views_add, lemma_views_push, views, OutputView};

verus! {

/// A mod of a kind that has no rule of its own is a row of the table that
/// its kind names: it asks for a new identifier in the first column of that
/// table, and its row is made.
pub open spec fn row_expansion(database: Seq<TableView>, m: ModView) -> Result<
    ModView,
    ModErrorView,
> {
    match table_named(database, target_table(m.mod_type)) {
        Some(table) => if table.columns.len() > 0 {
            finalized(database, with_output(m, table.columns[0].name, OutputView::GenerateId))
        } else {
            finalized(database, m)
        },
        None => Ok(m),
    }
}

/// The mods that the expansion of `m` appends to `buffer`, and `m` once
/// expanded, by the kind of `m`.
pub open spec fn expansion(database: Seq<TableView>, buffer: Seq<ModView>, m: ModView) -> Result<
    (Seq<ModView>, ModView),
    ModErrorView,
> {
    if m.mod_type == "item"@ {
        item_expansion(database, buffer, m)
    } else if m.mod_type == "sql"@ {
        match sql_request(m) {
            Err(e) => Err(e),
            Ok(_) => Ok((buffer, m)),
        }
    } else if m.mod_type == "environmental"@ {
        environmental_expansion(database, buffer, m)
    } else if m.mod_type == "mission"@ {
        mission_expansion(database, buffer, m)
    } else if m.mod_type == "npc"@ {
        npc_expansion(database, buffer, m)
    } else if m.mod_type == "enemy"@ {
        enemy_expansion(database, buffer, m)
    } else {
        match if m.mod_type == "object"@ {
            object_expansion(database, m)
        } else {
            row_expansion(database, m)
        } {
            Err(e) => Err(e),
            Ok(made) => Ok((buffer, made)),
        }
    }
}

/// The mod with the values of its author among its output values.
pub open spec fn started(m: ModView) -> ModView {
    ModView { output_values: absorbed(m.output_values, m.values), ..m }
}

/// The buffer after `m` is applied: `m` in its expanded form is appended,
/// and then the mods that its expansion made.
pub open spec fn applied(database: Seq<TableView>, buffer: Seq<ModView>, m: ModView) -> Result<
    Seq<ModView>,
    ModErrorView,
> {
    match expansion(database, Seq::empty(), started(m)) {
        Err(e) => Err(e),
        Ok((children, made)) => Ok(buffer.push(made) + children),
    }
}

/// Expands a mod of a kind that has no rule of its own.
pub fn add_row(mod_context: &ModContext, lu_mod: &mut Mod) -> (done: Result<(), ModError>)
    ensures
        match row_expansion(mod_context@.database, old(lu_mod)@) {
            Ok(m) => done is Ok && final(lu_mod)@ == m,
            Err(e) => done matches Err(x) && x@ == e,
        },
{
    let table_name = lu_mod.get_target_table_name();
    match find_table(&mod_context.database, table_name.as_str()) {
        Some(at) => {
            let table = &mod_context.database.tables[at];
            assert(table@ == mod_context@.database[at as int]);
            if table.columns.len() > 0 {
                assert(table@.columns[0] == table.columns@[0]@);
                let key = table.columns[0].name.clone();
                lu_mod.set_to_be_generated(key.as_str());
            }
            lu_mod.set_fields(mod_context)
        },
        None => Ok(()),
    }
}

/// Expands `lu_mod` by its kind.
pub fn expand(mod_context: &mut ModContext, lu_mod: &mut Mod) -> (done: Result<(), ModError>)
    ensures
        match expansion(old(mod_context)@.database, old(mod_context)@.mods, old(lu_mod)@) {
            Ok((buffer, m)) => {
                &&& done is Ok
                &&& final(lu_mod)@ == m
                &&& final(mod_context)@ == (ModContextView { mods: buffer, ..old(mod_context)@ })
            },
            Err(e) => done matches Err(x) && x@ == e,
        },
{
    let kind = lu_mod.mod_type.clone();
    if same_text(kind.as_str(), "item") {
        apply_item_mod(mod_context, lu_mod)
    } else if same_text(kind.as_str(), "sql") {
        match apply_sql_mod(mod_context, lu_mod) {
            Ok(_) => Ok(()),
            Err(e) => Err(e),
        }
    } else if same_text(kind.as_str(), "environmental") {
        apply_environmental_mod(mod_context, lu_mod)
    } else if same_text(kind.as_str(), "mission") {
        apply_mission_mod(mod_context, lu_mod)
    } else if same_text(kind.as_str(), "npc") {
        apply_npc_mod(mod_context, lu_mod)
    } else if same_text(kind.as_str(), "enemy") {
        apply_enemy_mod(mod_context, lu_mod)
    } else if same_text(kind.as_str(), "object") {
        apply_object_mod(mod_context, lu_mod)
    } else {
        add_row(mod_context, lu_mod)
    }
}

/// Applies one mod: it is expanded by its kind and appended to the buffer,
/// followed by the mods that its expansion made.
pub fn apply_mod(mod_context: &mut ModContext, lu_mod: Mod) -> (done: Result<(), ModError>)
    ensures
        match applied(old(mod_context)@.database, old(mod_context)@.mods, lu_mod@) {
            Ok(buffer) => done is Ok && final(mod_context)@ == (ModContextView {
                mods: buffer,
                ..old(mod_context)@
            }),
            Err(e) => done matches Err(x) && x@ == e,
        },
{
    let mut lu_mod = lu_mod;
    lu_mod.init_output_values();
    let mut buffer: Vec<Mod> = Vec::new();
    assert(views(buffer@) =~= Seq::<ModView>::empty());
    std::mem::swap(&mut mod_context.mods, &mut buffer);
    match expand(mod_context, &mut lu_mod) {
        Ok(()) => {},
        Err(e) => {
            mod_context.mods = buffer;
            return Err(e);
        },
    }
    proof {
        lemma_views_push(buffer@, lu_mod);
        lemma_views_add(buffer@.push(lu_mod), mod_context.mods@);
    }
    buffer.push(lu_mod);
    buffer.append(&mut mod_context.mods);
    mod_context.mods = buffer;
    Ok(())
}

} // verus!
