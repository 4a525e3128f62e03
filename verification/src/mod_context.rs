//! What a run carries from step to step.

use vstd::prelude::*;
use crate::dict::Dict;
use crate::locale::{Localization, LocalizationView};
use crate::lu_mod::{Mod, ModView};
use crate::mods::{Mods, ModsView};
use crate::schema::{Database, TableView};
use crate::value::views;

verus! {

pub struct ModContext {
    pub configuration: Mods,
    /// The directory in which the run takes place.
    pub root: String,
    /// The stock database.
    pub database: Database,
    /// The catalogue of phrases, to which those of the mods are added.
    pub localization: Localization,
    /// The mods, each followed by those that its expansion made.
    pub mods: Vec<Mod>,
    pub server_sql: Vec<String>,
    /// The identifier bound to each mod, by the mod's symbol.
    pub lookup: Dict<i32>,
}

pub struct ModContextView {
    pub configuration: ModsView,
    pub root: Seq<char>,
    pub database: Seq<TableView>,
    pub localization: LocalizationView,
    pub mods: Seq<ModView>,
    pub server_sql: Seq<Seq<char>>,
    pub lookup: Seq<(Seq<char>, i32)>,
}

impl View for ModContext {
    type V = ModContextView;

    open spec fn view(&self) -> ModContextView {
        ModContextView {
            configuration: self.configuration@,
            root: self.root@,
            database: self.database@,
            localization: self.localization@,
            mods: views(self.mods@),
            server_sql: views(self.server_sql@),
            lookup: self.lookup@,
        }
    }
}

/// The identifiers that a run has bound, as they are kept between runs.
pub struct LookupFile {
    pub ids: Dict<i32>,
}

impl View for LookupFile {
    type V = Seq<(Seq<char>, i32)>;

    open spec fn view(&self) -> Seq<(Seq<char>, i32)> {
        self.ids@
    }
}

} // verus!
